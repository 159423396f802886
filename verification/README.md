# kmcu

Host-side logic for driving Klipper-style printer MCUs, verified with Verus.

`src/` is the verified library:

- `vlq`, `crc`, `message`, `frame`, `command`, `commands`, `dictionary`,
  `binary`, `reader`: the Klipper wire protocol — variable length integers,
  CRC-16 framing, command tables and the dictionaries that map static to
  dynamic command ids.
- `elegoo`: the Elegoo 0xA55A bootloader protocol and the bring-up of an MCU
  through it, as a state machine.
- `klipper`: object-id allocation, stepper and TMC2209 set-up, single-step
  moves, the identify data, and the host end of a link.
- `gcode`, `strutil`: G-code line parsing and the commands whose parameters
  are integers or flags.
- `pin`, `gpio`, `os_dummy`, `os_linux`, `rpmsg`, `runtime`, `config`: pin
  strings, sysfs GPIO writes, clocks, RPMsg endpoint data, how an MCU is
  powered, and the configuration values.

`app/` is the program around it: configuration files, the operating-system
streams (serial ports, sockets, RPMsg), GPIO file writes, the clock, and the
G-code commands with floating-point parameters.

`tests/` runs the library on concrete values.

Known gap: the TMC2209 set-up computes its register writes, in order, but
`app/` does not send them. Sending one needs the TMC UART datagram encoder
and the CRC8 check of the driver's reply, which this code base does not
contain, so each write is logged instead.
