# stcbsl

A flasher for the serial bootloader of STC89 microcontrollers, as a library
verified with [Verus](https://github.com/verus-lang/verus) and a thin program
around it.

* `src/` is the library. It holds the frames and the resynchronising receiver
  (`frame`), the Intel HEX reader (`ihex`), the session plan of a family
  (`protocol`), the session state machine (`session`), the decisions of the
  driver (`driver`), and what the command-line tools mean and print (`cli`,
  `probe`). Every function states in its contract what it returns; `laws`
  states and proves what holds across functions.
* `tests/` runs the library on concrete values.
* `app/` is the program: the serial port, the clock, files and the terminal.

The protocol in one paragraph: after a cold power-on the bootloader measures
the host's sync bytes and sends an unsolicited status packet. Everything the
host sends is a function of that packet and of the image, so a session is
planned up front as a list of frames with the reply that each must get. The
option byte is only ever echoed. A failure between the first write block and
the acknowledgement of the last is reported as an indeterminate flash.
