//! Laws of the command line and of what is printed.

use vstd::prelude::*;

use crate::cli;
use crate::cli::{ArgsView, ParsedView};
use crate::frame;
use crate::laws;
use crate::protocol::stc89;
use crate::protocol::{JobView, ProtocolErrorView, SessionOptions, TargetInfoView};
use crate::session::{ExpectView, StepView};
use crate::text;

verus! {

/// `flash` is another word for `write`.
pub proof fn law_flash_is_write(a: ArgsView)
    ensures
        cli::commanded(ArgsView { command: Some("flash"@), ..a }) == cli::commanded(
            ArgsView { command: Some("write"@), ..a },
        ),
{
    reveal_strlit("flash");
    reveal_strlit("write");
    reveal_strlit("ports");
    reveal_strlit("explain");
    reveal_strlit("identify");
    reveal_strlit("info");
    reveal_strlit("erase");
    assert("flash"@[0] != "ports"@[0] && "write"@[0] != "ports"@[0]);
    assert("flash"@[0] != "erase"@[0] && "write"@[0] != "erase"@[0]);
}

/// `-p` is another word for `--port`, wherever it stands.
pub proof fn law_p_is_port(argv: Seq<Seq<char>>, i: int, a: ArgsView)
    requires
        0 <= i < argv.len(),
    ensures
        cli::parsed_from(argv.update(i, "-p"@), i, a) == cli::parsed_from(
            argv.update(i, "--port"@),
            i,
            a,
        ),
{
    reveal_strlit("-p");
    reveal_strlit("--port");
    reveal_strlit("-h");
    reveal_strlit("--help");
    let one = argv.update(i, "-p"@);
    let other = argv.update(i, "--port"@);
    assert("-p"@[1] != "-h"@[1]);
    assert("--port"@[2] != "--help"@[2]);
    if i + 1 < argv.len() {
        match cli::with_value(a, "--port"@, argv[i + 1]) {
            Ok(b) => lemma_only_the_rest_counts(one, other, i + 2, b),
            Err(_) => {},
        }
    }
}

/// What has been read already does not count again.
proof fn lemma_only_the_rest_counts(
    one: Seq<Seq<char>>,
    other: Seq<Seq<char>>,
    i: int,
    a: ArgsView,
)
    requires
        0 <= i,
        one.len() == other.len(),
        forall|k: int| i <= k < one.len() ==> one[k] == other[k],
    ensures
        cli::parsed_from(one, i, a) == cli::parsed_from(other, i, a),
    decreases one.len() - i,
{
    if i < one.len() {
        match cli::valued_option(one[i]) {
            Some(option) => if i + 1 < one.len() {
                match cli::with_value(a, option, one[i + 1]) {
                    Ok(b) => lemma_only_the_rest_counts(one, other, i + 2, b),
                    Err(_) => {},
                }
            },
            None => match cli::with_plain(a, one[i]) {
                Ok(b) => lemma_only_the_rest_counts(one, other, i + 1, b),
                Err(_) => {},
            },
        }
    }
}

/// With nothing said, the defaults hold.
pub proof fn law_nothing_said_means_the_defaults()
    ensures
        cli::parsed_from(seq![], 0, cli::default_args()) == Ok::<ParsedView, Seq<char>>(
            ParsedView::Args(cli::default_args()),
        ),
{
}

/// What `explain` says a block will ack, for an image, is what the session
/// that programs the image expects, at the address that it says.
pub proof fn law_explain_tells_what_the_session_expects(
    info: TargetInfoView,
    image: Seq<u8>,
    write_options: bool,
    opts: SessionOptions,
    steps: Seq<StepView>,
    i: int,
)
    requires
        stc89::session_for(info, JobView::Flash { image, write_options }, opts) == Ok::<
            Seq<StepView>,
            ProtocolErrorView,
        >(steps),
        0 <= i < cli::region_for(image) / 128,
    ensures
        ({
            let step = steps[7 + i];
            let block = step.frame.payload.skip(6);
            &&& step.write_addr == Some((i * 128) as u32)
            &&& step.expect == (ExpectView::BlockAck { sum: frame::sum8(block) })
            &&& cli::explain_lines(image)[2 + i] == "  0x"@ + text::hex_lower(
                (i * 128) as nat,
                4,
            ) + "  ack 0x"@ + text::hex_lower(frame::sum8(block) as nat, 2) + (
            if cli::is_padding(block) {
                "   (padding)"@
            } else {
                ""@
            })
        }),
{
    let data = stc89::padded(image, cli::region_for(image));
    laws::plan::law_each_block_is_acknowledged_by_its_sum(
        info,
        image,
        write_options,
        opts,
        steps,
        i,
    );
    laws::plan::lemma_write_block(info, image, write_options, opts, steps, i);
    assert(cli::explain_lines(image)[2 + i] == cli::block_line(data, i));
}

} // verus!
