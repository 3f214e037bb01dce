# str0m bandwidth estimation

Send-side bandwidth estimation and pacing for real-time media, verified with Verus, and the shared
byte buffer that packets are carried in.

- `src/` is the library. Verus proves the contracts in it; the one that is taken on trust is named
  below, and nothing is claimed of derived impls.
  - `bwe/delay/control.rs`: the delay controller. It decides what the rate control is asked to do
    when a TWCC report comes in and when a timeout fires.
  - `bwe/delay/rtt_average.rs`: the smoothed round trip time.
  - `bwe/capacity.rs`: a weighted mean with a normalized variance, on which
    `bwe/link_capacity_estimator.rs` and `bwe/delay/aimd_link_capacity.rs` are built.
  - `bwe/app_rate.rs`: the rate at which the application sends.
  - `bwe/laws.rs`, `bwe/delay/laws.rs`: what holds of the estimates over any run.
  - `pacer/control.rs`: pacing and padding rates.
  - `shared_bytes.rs`: immutable, cheaply cloneable bytes.
  - `bitrate.rs`, `time.rs`, `math.rs`: rates, times and integer arithmetic.
- `app/` joins the library to clocks, floating point and the parts beside the delay controller.
- `tests/` runs the library.

Rates count thousandths of a bit per second and times count nanoseconds, so that everything is
integer arithmetic. Each operation says how it rounds. A finite rate goes up to what 128 bits hold,
which is 3.4 * 10^35 bit/s.

One statement is taken on trust: that `Arc::from` on a slice copies the bytes of the slice.
