use vstd::prelude::*;
use super::trace::RegisterWrite;

verus! {

/// The time of a register write, in microseconds.
pub open spec fn write_time(writes: Seq<RegisterWrite>, i: int) -> int {
    writes[i].time_us as int
}

/// Whether write `i` breaks the schedule: its time goes back, or its
/// output frame cannot be computed in 64 bits.
pub open spec fn schedule_breaks(writes: Seq<RegisterWrite>, rate: u32, i: int) -> bool {
    ||| i > 0 && write_time(writes, i) < write_time(writes, i - 1)
    ||| write_time(writes, i) * rate > u64::MAX
}

/// A write placed on an output frame.
#[derive(Clone, Copy, Debug, PartialEq, Eq, Structural)]
pub struct ScheduledWrite {
    pub frame: u64,
    pub write: RegisterWrite,
}

/// The output frame of a time at a sample rate (whole frames elapsed).
pub open spec fn frame_at(time_us: u64, rate: u32) -> int {
    time_us as int * rate as int / 1_000_000
}

/// Places each write of a trace on the output frame its absolute time
/// falls in. Times must not go back and must convert without overflow; the
/// first write that breaks either names the error.
pub fn schedule_writes(writes: &[RegisterWrite], rate: u32) -> (result: Result<Vec<ScheduledWrite>, String>)
    ensures
        result is Ok <==> forall|i: int| 0 <= i < writes@.len() ==> !#[trigger] schedule_breaks(writes@, rate, i),
        result matches Ok(scheduled) ==> scheduled@.len() == writes@.len() && forall|i: int| 0 <= i < writes@.len()
            ==> #[trigger] scheduled@[i] == (ScheduledWrite { frame: frame_at(writes@[i].time_us, rate) as u64, write: writes@[i] }),
        result matches Err(message) ==> exists|i: int| 0 <= i < writes@.len() && #[trigger] schedule_breaks(writes@, rate, i)
            && (forall|j: int| 0 <= j < i ==> !#[trigger] schedule_breaks(writes@, rate, j))
            && message@ == (if i > 0 && write_time(writes@, i) < write_time(writes@, i - 1) {
                "trace timestamps are not monotonic"@
            } else {
                "trace timestamp overflows frame conversion"@
            }),
{
    let mut scheduled: Vec<ScheduledWrite> = Vec::new();
    let mut previous_time: u64 = 0;
    let mut index: usize = 0;
    while index < writes.len()
        invariant
            index <= writes@.len(),
            scheduled@.len() == index,
            index > 0 ==> previous_time == writes@[index - 1].time_us,
            index == 0 ==> previous_time == 0,
            forall|j: int| 0 <= j < index ==> !#[trigger] schedule_breaks(writes@, rate, j),
            forall|j: int| 0 <= j < index ==> #[trigger] scheduled@[j]
                == (ScheduledWrite { frame: frame_at(writes@[j].time_us, rate) as u64, write: writes@[j] }),
        decreases writes@.len() - index,
    {
        let time = writes[index].time_us;
        if time < previous_time {
            proof {
                assert(schedule_breaks(writes@, rate, index as int));
            }
            return Err("trace timestamps are not monotonic".to_owned());
        }
        if time > 0 && rate as u64 > u64::MAX / time {
            proof {
                assert(time as int * rate as int > u64::MAX) by (nonlinear_arith)
                    requires
                        time > 0,
                        rate as int > u64::MAX as int / time as int,
                ;
                assert(schedule_breaks(writes@, rate, index as int));
            }
            return Err("trace timestamp overflows frame conversion".to_owned());
        }
        proof {
            assert(time as int * rate as int <= u64::MAX) by (nonlinear_arith)
                requires
                    time == 0 || rate as int <= u64::MAX as int / time as int,
            ;
        }
        let frame = time * rate as u64 / 1_000_000;
        let start = index;
        while index < writes.len() && writes[index].time_us == time
            invariant
                start <= index <= writes@.len(),
                start < writes@.len(),
                writes@[start as int].time_us == time,
                forall|k: int| start <= k < index ==> #[trigger] writes@[k].time_us == time,
                start > 0 ==> previous_time == writes@[start - 1].time_us,
                start == 0 ==> previous_time == 0,
                scheduled@.len() == index,
                previous_time <= time,
                time as int * rate as int <= u64::MAX,
                frame == frame_at(time, rate),
                forall|j: int| 0 <= j < index ==> !#[trigger] schedule_breaks(writes@, rate, j),
                forall|j: int| 0 <= j < index ==> #[trigger] scheduled@[j]
                    == (ScheduledWrite { frame: frame_at(writes@[j].time_us, rate) as u64, write: writes@[j] }),
            decreases writes@.len() - index,
        {
            scheduled.push(ScheduledWrite { frame, write: writes[index] });
            proof {
                if index > start {
                    assert(writes@[index - 1].time_us == time);
                }
            }
            index = index + 1;
        }
        assert(index > start);
        assert(writes@[index - 1].time_us == time);
        previous_time = time;
    }
    Ok(scheduled)
}

/// The register wait of the reference player: each write waits 30
/// microseconds of output frames, the fractional part carried in
/// thousandths.
#[derive(Clone, Copy, Debug, PartialEq, Eq, Structural)]
pub struct RegisterWait {
    pub rate: u32,
    pub fractional: u64,
}

/// The wait of one register write, in thousandths of a frame.
pub open spec fn wait_count(rate: u32) -> int {
    30_000 * rate as int / 1_000_000
}

impl RegisterWait {
    pub fn new(rate: u32, initial_count2: u64) -> (wait: Self)
        ensures
            wait == (RegisterWait { rate, fractional: initial_count2 }),
    {
        RegisterWait { rate, fractional: initial_count2 }
    }

    /// The whole frames to render before the next write: the wait's whole
    /// frames, one more when the carried fraction passes a frame.
    pub fn frames_before_write(&mut self) -> (frames: u32)
        requires
            old(self).fractional + 1000 <= u64::MAX,
        ensures
            ({
                let carried = old(self).fractional + wait_count(old(self).rate) % 1000;
                &&& frames == wait_count(old(self).rate) / 1000 + (if carried > 1000 { 1int } else { 0 })
                &&& final(self).rate == old(self).rate
                &&& final(self).fractional == (if carried > 1000 { carried - 1000 } else { carried })
            }),
    {
        let wait_count = 30_000u64 * self.rate as u64 / 1_000_000;
        let mut frames = wait_count / 1_000;
        self.fractional = self.fractional + wait_count % 1_000;
        if self.fractional > 1_000 {
            frames = frames + 1;
            self.fractional = self.fractional - 1_000;
        }
        frames as u32
    }
}

/// Whether a write restarts the driver's wait queue: enabling the
/// interrupts (0x83 to register 0x29) drops the frames waiting to go out.
pub fn clears_wait_queue(write: RegisterWrite) -> (clears: bool)
    ensures
        clears == (write.address == 0x29 && write.value == 0x83),
{
    write.address == 0x29 && write.value == 0x83
}

} // verus!
