//! Day 23: the machine network.  Fifty machines exchange three-value
//! packets round-robin; an idle network is kicked off again by the monitor,
//! which keeps only the last packet aimed at it.
use crate::intcode::{wf, Intcode, RunState};
use crate::solve::{SolveError, DEFAULT_BUDGET};
use vstd::prelude::*;
use vstd::string::StringSliceAdditionalSpecFns;

verus! {

/// One network interface controller: its machine and its packet queue.
pub struct Controller {
    program: Intcode,
    incoming: Vec<(i64, i64)>,
}

impl Controller {
    pub closed spec fn inv(&self) -> bool {
        wf(self.program@)
    }

    /// Boot a fresh copy of the program with its network address.
    pub fn start(base: &Intcode, number: i64) -> (r: Result<Controller, SolveError>)
        requires
            wf(base@),
        ensures
            r matches Ok(c) ==> c.inv(),
    {
        let mut code = base.duplicate();
        let input: [i64; 1] = [number];
        match code.run(input.as_slice(), DEFAULT_BUDGET) {
            Ok(RunState::Suspended) => {},
            Ok(RunState::Finished) => {
                return Err(SolveError::Protocol);
            },
            Ok(RunState::OutOfSteps) => {
                return Err(SolveError::OutOfSteps);
            },
            Err(e) => {
                return Err(SolveError::Exec(e));
            },
        }
        Ok(Controller { program: code, incoming: Vec::new() })
    }

    /// Whether no packet waits in the queue.
    pub fn is_idle(&self) -> (r: bool)
        ensures
            r == (self.queue_len() == 0),
    {
        self.incoming.len() == 0
    }

    pub closed spec fn queue_len(&self) -> int {
        self.incoming@.len() as int
    }

    /// Queue a packet for delivery on the next turn.
    pub fn send(&mut self, content: (i64, i64))
        requires
            old(self).inv(),
        ensures
            final(self).inv(),
    {
        self.incoming.push(content);
    }

    /// One turn: deliver the queued packets, or -1 when none waits, and
    /// collect the addressed packets the machine emits.
    pub fn run(&mut self) -> (r: Result<Vec<(i64, (i64, i64))>, SolveError>)
        requires
            old(self).inv(),
        ensures
            final(self).inv(),
    {
        if self.incoming.len() == 0 {
            let idle: [i64; 1] = [-1];
            match self.program.run(idle.as_slice(), DEFAULT_BUDGET) {
                Ok(RunState::OutOfSteps) => {
                    return Err(SolveError::OutOfSteps);
                },
                Err(e) => {
                    return Err(SolveError::Exec(e));
                },
                _ => {},
            }
        } else {
            let mut k: usize = 0;
            while k < self.incoming.len()
                invariant
                    k <= self.incoming@.len(),
                    self.inv(),
                decreases self.incoming@.len() - k,
            {
                let (x, y) = self.incoming[k];
                let packet: [i64; 2] = [x, y];
                match self.program.run(packet.as_slice(), DEFAULT_BUDGET) {
                    Ok(RunState::OutOfSteps) => {
                        return Err(SolveError::OutOfSteps);
                    },
                    Err(e) => {
                        return Err(SolveError::Exec(e));
                    },
                    _ => {},
                }
                k = k + 1;
            }
            self.incoming = Vec::new();
        }

        let output = self.program.drain();
        if output.len() % 3 != 0 {
            return Err(SolveError::Protocol);
        }
        let mut packets: Vec<(i64, (i64, i64))> = Vec::new();
        let mut i: usize = 0;
        while i < output.len() / 3
            invariant
                i <= output@.len() / 3,
            decreases output@.len() / 3 - i,
        {
            let p = i * 3;
            packets.push((output[p], (output[p + 1], output[p + 2])));
            i = i + 1;
        }
        Ok(packets)
    }
}

/// Rounds the network loop is allowed.
const MAX_NET_ROUNDS: u64 = 1000000;

/// Run the fifty-machine network.  With `terminate` the first packet for
/// address 255 is the answer; otherwise the monitor revives an idle network
/// until it repeats a value.
pub fn run_network(text: &str, terminate: bool) -> (r: Result<i64, SolveError>)
    requires
        text.spec_bytes().len() <= usize::MAX - 8,
    ensures
        !crate::parse::valid_program(text.spec_bytes()) ==> r == Result::<
            i64,
            SolveError,
        >::Err(SolveError::Parse),
{
    let size: usize = 50;
    let program = match Intcode::from_text(text) {
        Ok(m) => m,
        Err(_) => {
            return Err(SolveError::Parse);
        },
    };
    let mut controllers: Vec<Controller> = Vec::new();
    let mut i: usize = 0;
    while i < size
        invariant
            controllers@.len() == i,
            i <= size,
            wf(program@),
            crate::parse::valid_program(text.spec_bytes()),
            forall|t: int| 0 <= t < i ==> (#[trigger] controllers@[t]).inv(),
        decreases size - i,
    {
        let c = match Controller::start(&program, i as i64) {
            Ok(c) => c,
            Err(e) => {
                return Err(e);
            },
        };
        controllers.push(c);
        i = i + 1;
    }

    let mut monitor: Option<(i64, i64)> = None;
    let mut last_sent: Option<i64> = None;
    let mut rounds: u64 = 0;
    while rounds < MAX_NET_ROUNDS
        invariant
            controllers@.len() == size,
            size == 50,
            crate::parse::valid_program(text.spec_bytes()),
            forall|t: int| 0 <= t < size ==> (#[trigger] controllers@[t]).inv(),
        decreases MAX_NET_ROUNDS - rounds,
    {
        let mut c: usize = 0;
        while c < size
            invariant
                c <= size,
                size == 50,
                crate::parse::valid_program(text.spec_bytes()),
                controllers@.len() == size,
                forall|t: int| 0 <= t < size ==> (#[trigger] controllers@[t]).inv(),
            decreases size - c,
        {
            let mut unit = controllers.remove(c);
            let packets = match unit.run() {
                Ok(p) => p,
                Err(e) => {
                    return Err(e);
                },
            };
            controllers.insert(c, unit);
            let mut p: usize = 0;
            while p < packets.len()
                invariant
                    p <= packets@.len(),
                    size == 50,
                    crate::parse::valid_program(text.spec_bytes()),
                    controllers@.len() == size,
                    forall|t: int| 0 <= t < size ==> (#[trigger] controllers@[t]).inv(),
                decreases packets@.len() - p,
            {
                let (dest, content) = packets[p];
                if dest == 255 {
                    if terminate {
                        return Ok(content.1);
                    }
                    monitor = Some(content);
                } else if 0 <= dest && dest < size as i64 {
                    let mut target = controllers.remove(dest as usize);
                    target.send(content);
                    controllers.insert(dest as usize, target);
                } else {
                    return Err(SolveError::Protocol);
                }
                p = p + 1;
            }
            c = c + 1;
        }

        if !terminate {
            let mut all_idle = true;
            let mut t: usize = 0;
            while t < size
                invariant
                    t <= size,
                    size == 50,
                    controllers@.len() == size,
                    forall|q: int| 0 <= q < size ==> (#[trigger] controllers@[q]).inv(),
                decreases size - t,
            {
                if !controllers[t].is_idle() {
                    all_idle = false;
                }
                t = t + 1;
            }
            if all_idle {
                let content = match monitor {
                    Some(c2) => c2,
                    None => {
                        return Err(SolveError::Protocol);
                    },
                };
                match last_sent {
                    Some(v) if v == content.1 => {
                        return Ok(content.1);
                    },
                    _ => {},
                }
                last_sent = Some(content.1);
                let mut target = controllers.remove(0);
                target.send(content);
                controllers.insert(0, target);
            }
        }
        rounds = rounds + 1;
    }
    Err(SolveError::OutOfSteps)
}

/// Part one: the monitored value of the first packet for address 255.
pub fn part_a(text: &str) -> (r: Result<i64, SolveError>)
    requires
        text.spec_bytes().len() <= usize::MAX - 8,
    ensures
        !crate::parse::valid_program(text.spec_bytes()) ==> r == Result::<
            i64,
            SolveError,
        >::Err(SolveError::Parse),
{
    run_network(text, true)
}

/// Part two: the first value the monitor delivers twice in a row.
pub fn part_b(text: &str) -> (r: Result<i64, SolveError>)
    requires
        text.spec_bytes().len() <= usize::MAX - 8,
    ensures
        !crate::parse::valid_program(text.spec_bytes()) ==> r == Result::<
            i64,
            SolveError,
        >::Err(SolveError::Parse),
{
    run_network(text, false)
}

} // verus!
