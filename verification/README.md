# rover_low_level_controller

Low-level controller of a six-wheel rover on an Arduino Mega 2560: the
master state machine and its ASCII protocol, the drive ramp, motor and
traction control, sensor conversions, the device drivers, and the
decisions of the 20 ms control loop. The library in `src/` is verified
with Verus; `app/` is the firmware around it (entry point, interrupt
handlers, pin and timer access, the floating-point pose filter).

Layout of `src/`:

- `state_machine` — states, commands, safety levels, watchdog; command
  parsing and response encoding (`text`).
- `ramp` — soft start and stop of the two sides.
- `motor_control` — the `Motor` interface, the six-wheel chassis, the
  L298N and BTS7960 driver models, the servo, motors with encoders.
- `controller` — stall supervision per channel.
- `supervisor` — what the main loop decides each cycle.
- `relay` — battery bank selection.
- `command_interface` — receive ring buffer and command line assembly.
- `sensors` — ACS712, LM335, NTC, TF02, TF-Luna, HC-SR04, encoders, and the
  bit-banged I2C bus with the INA3221, INA226, VL53L0X and MPU-6050.
- `config` — tuning constants.

Hardware access goes through small traits (`I2cLines`, `EchoPins`,
`ByteSource`, `PulsePin`, `HBridgeOutput`, `BtsOutput`) that the firmware
implements for the board. Each driver touches its lines only through small
helpers that make the line call and record it together, and its contracts
are stated over that record: the pin operations of the HC-SR04 and the
servo, the line operations of the I2C bus (to which every bus event,
ACK and failure is tied by `SoftI2C::lines_match`), and the pin state each
motor driver applies to its output.

Every `Motor` keeps the record of the driver calls it carried out
(`calls()`); each call adds exactly itself, so the chassis and the traction
controller state exactly which call each motor received.

The overcurrent thresholds and current sensors follow the driver fit
(`config::DriverLayout`: six L298N, mixed, or six BTS7960), chosen in the
firmware's `DRIVER_LAYOUT`. The telemetry's STALL field reads FR first:
bit 5 of the stall mask is FR, bit 0 is RL.
