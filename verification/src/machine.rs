//! The executable virtual machine, verified against the ghost model in
//! [`crate::semantics`].

use vstd::prelude::*;

use std::collections::VecDeque;

use crate::error::BrainfuckError;
use crate::semantics::{
    dec_cell, find_close, find_open, halts, inc_cell, step, steps, Config, Status, INSTR_CLOSE,
    INSTR_DEC, INSTR_IN, INSTR_INC, INSTR_LEFT, INSTR_OPEN, INSTR_OUT, INSTR_RIGHT, MEMORY_SIZE,
};

verus! {

/// A virtual machine instance: the loaded program, the program counter, the
/// memory tape with its address pointer, and the pending input queue.
/// Output exists only during `run` and is handed to the caller on success.
pub struct VirtualMachine {
    pub program: Option<Vec<u8>>,
    pub pc: usize,
    pub memory: Vec<u8>,
    pub ap: u16,
    pub input_buffer: VecDeque<u8>,
}

impl VirtualMachine {
    /// Well-formedness: the tape has exactly `MEMORY_SIZE` cells, so every
    /// address the 16-bit pointer can take is a valid cell index.
    pub open spec fn wf(self) -> bool {
        self.memory@.len() == MEMORY_SIZE
    }

    /// Whether a non-empty program is loaded; `run` refuses to start otherwise.
    pub open spec fn loaded(self) -> bool {
        self.program is Some && self.program->0@.len() > 0
    }

    /// The loaded program as a byte sequence (empty when none is loaded).
    pub open spec fn prog_view(self) -> Seq<u8> {
        if self.program is Some {
            self.program->0@
        } else {
            Seq::empty()
        }
    }

    /// The machine's current state as a ghost configuration, together with
    /// an output accumulator and a run status.
    pub open spec fn config(self, output: Seq<u8>, status: Status) -> Config {
        Config {
            pc: self.pc as nat,
            mem: self.memory@,
            ap: self.ap as nat,
            input: self.input_buffer@,
            output,
            status,
        }
    }

    /// A fresh machine: no program, zeroed tape, pointer and counter at 0,
    /// empty input queue.
    pub fn new() -> (vm: VirtualMachine)
        ensures
            vm.wf(),
            vm.program is None,
            vm.pc == 0,
            vm.ap == 0,
            vm.input_buffer@ == Seq::<u8>::empty(),
            forall|i: int| 0 <= i < vm.memory@.len() ==> vm.memory@[i] == 0u8,
    {
        let mut memory: Vec<u8> = Vec::new();
        while memory.len() < MEMORY_SIZE
            invariant
                memory@.len() <= MEMORY_SIZE,
                forall|i: int| 0 <= i < memory@.len() ==> memory@[i] == 0u8,
            decreases MEMORY_SIZE - memory@.len(),
        {
            memory.push(0u8);
        }
        VirtualMachine {
            program: None,
            pc: 0,
            memory,
            ap: 0,
            input_buffer: VecDeque::new(),
        }
    }

    /// Replaces any previously loaded program with `program`, wholesale.
    ///
    /// Nothing is validated and nothing else is reset: bytes outside the
    /// instruction alphabet are only rejected at dispatch time, and the
    /// program counter and address pointer keep their values.
    pub fn load(&mut self, program: Vec<u8>) -> (r: Result<(), BrainfuckError>)
        ensures
            r is Ok,
            final(self).program == Some(program),
            final(self).pc == old(self).pc,
            final(self).memory == old(self).memory,
            final(self).ap == old(self).ap,
            final(self).input_buffer == old(self).input_buffer,
    {
        self.program = Some(program);
        Ok(())
    }

    /// Appends `input` to the end of the input queue; never fails.
    pub fn input(&mut self, input: &[u8])
        ensures
            final(self).input_buffer@ == old(self).input_buffer@ + input@,
            final(self).program == old(self).program,
            final(self).pc == old(self).pc,
            final(self).memory == old(self).memory,
            final(self).ap == old(self).ap,
    {
        let mut i: usize = 0;
        while i < input.len()
            invariant
                i <= input@.len(),
                self.input_buffer@ == old(self).input_buffer@ + input@.subrange(0, i as int),
                self.program == old(self).program,
                self.pc == old(self).pc,
                self.memory == old(self).memory,
                self.ap == old(self).ap,
            decreases input@.len() - i,
        {
            self.input_buffer.push_back(input[i]);
            i = i + 1;
            proof {
                assert(input@.subrange(0, i as int)
                    =~= input@.subrange(0, i - 1).push(input@[i - 1]));
            }
        }
        proof {
            assert(input@.subrange(0, input@.len() as int) =~= input@);
        }
    }

    /// Moves the address pointer one cell to the left; at the bottom of the
    /// tape this fails with `MemoryUnderflow` and moves nothing.
    fn move_left(&mut self) -> (r: Result<(), BrainfuckError>)
        ensures
            final(self).program == old(self).program,
            final(self).pc == old(self).pc,
            final(self).memory == old(self).memory,
            final(self).input_buffer == old(self).input_buffer,
            old(self).ap == 0 ==> (r matches Err(e) && e == BrainfuckError::MemoryUnderflow
                && final(self).ap == old(self).ap),
            old(self).ap > 0 ==> r is Ok && final(self).ap == old(self).ap - 1,
    {
        if self.ap == 0 {
            Err(BrainfuckError::MemoryUnderflow)
        } else {
            self.ap = self.ap - 1;
            Ok(())
        }
    }

    /// Moves the address pointer one cell to the right; at the top of the
    /// tape this fails with `MemoryOverflow` and moves nothing.
    fn move_right(&mut self) -> (r: Result<(), BrainfuckError>)
        ensures
            final(self).program == old(self).program,
            final(self).pc == old(self).pc,
            final(self).memory == old(self).memory,
            final(self).input_buffer == old(self).input_buffer,
            old(self).ap == MEMORY_SIZE - 1 ==> (r matches Err(e)
                && e == BrainfuckError::MemoryOverflow && final(self).ap == old(self).ap),
            old(self).ap < MEMORY_SIZE - 1 ==> r is Ok && final(self).ap == old(self).ap + 1,
    {
        if self.ap == 65535 {
            Err(BrainfuckError::MemoryOverflow)
        } else {
            self.ap = self.ap + 1;
            Ok(())
        }
    }

    /// The value of the cell at the address pointer.
    fn read(&self) -> (r: u8)
        requires
            self.wf(),
        ensures
            r == self.memory@[self.ap as int],
    {
        self.memory[self.ap as usize]
    }

    /// Stores `value` in the cell at the address pointer.
    fn write(&mut self, value: u8)
        requires
            old(self).wf(),
        ensures
            final(self).memory@ == old(self).memory@.update(old(self).ap as int, value),
            final(self).wf(),
            final(self).program == old(self).program,
            final(self).pc == old(self).pc,
            final(self).ap == old(self).ap,
            final(self).input_buffer == old(self).input_buffer,
    {
        self.memory.set(self.ap as usize, value);
    }

    /// Adds 1 to the cell at the address pointer, wrapping modulo 256.
    fn increment(&mut self)
        requires
            old(self).wf(),
        ensures
            final(self).memory@ == old(self).memory@.update(
                old(self).ap as int,
                inc_cell(old(self).memory@[old(self).ap as int]),
            ),
            final(self).wf(),
            final(self).program == old(self).program,
            final(self).pc == old(self).pc,
            final(self).ap == old(self).ap,
            final(self).input_buffer == old(self).input_buffer,
    {
        let v = self.read();
        let next = if v == 255 {
            0u8
        } else {
            v + 1
        };
        self.write(next);
    }

    /// Subtracts 1 from the cell at the address pointer, wrapping modulo 256.
    fn decrement(&mut self)
        requires
            old(self).wf(),
        ensures
            final(self).memory@ == old(self).memory@.update(
                old(self).ap as int,
                dec_cell(old(self).memory@[old(self).ap as int]),
            ),
            final(self).wf(),
            final(self).program == old(self).program,
            final(self).pc == old(self).pc,
            final(self).ap == old(self).ap,
            final(self).input_buffer == old(self).input_buffer,
    {
        let v = self.read();
        let next = if v == 0 {
            255u8
        } else {
            v - 1
        };
        self.write(next);
    }

    /// Overwrites the address pointer, bypassing the bounds-checked moves;
    /// a diagnostic and testing affordance. Every 16-bit address is a valid
    /// cell index, so this cannot make the machine ill-formed.
    pub fn set_pointer(&mut self, address: u16)
        ensures
            final(self).ap == address,
            final(self).program == old(self).program,
            final(self).pc == old(self).pc,
            final(self).memory == old(self).memory,
            final(self).input_buffer == old(self).input_buffer,
    {
        self.ap = address;
    }

    /// Executes the loaded program to completion.
    ///
    /// Fails immediately with `NoProgramLoaded`, touching nothing, exactly
    /// when no non-empty program is loaded. Otherwise the fetch-dispatch
    /// loop runs until the program counter reaches the end of the program
    /// (success, returning the accumulated output) or an instruction fails
    /// (returning that error and discarding the output). Either outcome,
    /// and the machine state left behind, is exactly what iterating the
    /// ghost interpreter [`steps`] from the starting configuration yields.
    ///
    /// The `halts` precondition reflects that the dispatch loop has no step
    /// budget by design: total correctness is proved for every halting
    /// execution, and on a program that never halts the compiled loop
    /// (whose ghost clauses are erased) simply never returns, which is the
    /// intended behaviour of this layer.
    #[verifier::loop_isolation(false)]
    pub fn run(&mut self) -> (r: Result<Vec<u8>, BrainfuckError>)
        requires
            old(self).wf(),
            old(self).loaded() ==> halts(
                old(self).prog_view(),
                old(self).config(Seq::<u8>::empty(), Status::Running),
            ),
        ensures
            final(self).wf(),
            final(self).program == old(self).program,
            (r == Result::<Vec<u8>, BrainfuckError>::Err(BrainfuckError::NoProgramLoaded))
                <==> !old(self).loaded(),
            !old(self).loaded() ==> *final(self) == *old(self),
            r matches Ok(out) ==> exists|n: nat|
                #[trigger] steps(
                    old(self).prog_view(),
                    old(self).config(Seq::<u8>::empty(), Status::Running),
                    n,
                ) == final(self).config(out@, Status::Done),
            r matches Err(e) ==> (e != BrainfuckError::NoProgramLoaded ==> exists|n: nat|
                {
                    let c = #[trigger] steps(
                        old(self).prog_view(),
                        old(self).config(Seq::<u8>::empty(), Status::Running),
                        n,
                    );
                    &&& c.status == Status::Failed(e)
                    &&& c.pc == final(self).pc as nat
                    &&& c.mem == final(self).memory@
                    &&& c.ap == final(self).ap as nat
                    &&& c.input == final(self).input_buffer@
                }),
    {
        let has_program = match &self.program {
            Some(p) => p.len() > 0,
            None => false,
        };
        if !has_program {
            return Err(BrainfuckError::NoProgramLoaded);
        }
        let ghost p0 = self.prog_view();
        let ghost c0 = self.config(Seq::<u8>::empty(), Status::Running);
        let ghost halt_step = choose|k: nat| !((#[trigger] steps(p0, c0, k)).status is Running);
        let ghost mut n: nat = 0;
        let mut output: Vec<u8> = Vec::new();
        let program_len = match &self.program {
            Some(p) => p.len(),
            None => 0,
        };
        while self.pc < program_len
            invariant
                self.wf(),
                self.program == old(self).program,
                steps(p0, c0, n) == self.config(output@, Status::Running),
                n <= halt_step,
                !(steps(p0, c0, halt_step).status is Running),
            decreases halt_step - n,
        {
            let ghost pre = steps(p0, c0, n);
            let instruction = match &self.program {
                Some(p) => p[self.pc],
                None => 0u8,
            };
            if instruction == INSTR_LEFT {
                match self.move_left() {
                    Ok(_) => {
                        self.pc = self.pc + 1;
                        proof {
                            n = n + 1;
                            assert(steps(p0, c0, n) =~= self.config(output@, Status::Running));
                        }
                    },
                    Err(e) => {
                        proof {
                            n = n + 1;
                            assert(steps(p0, c0, n) =~= self.config(
                                output@,
                                Status::Failed(BrainfuckError::MemoryUnderflow),
                            ));
                        }
                        return Err(e);
                    },
                }
            } else if instruction == INSTR_RIGHT {
                match self.move_right() {
                    Ok(_) => {
                        self.pc = self.pc + 1;
                        proof {
                            n = n + 1;
                            assert(steps(p0, c0, n) =~= self.config(output@, Status::Running));
                        }
                    },
                    Err(e) => {
                        proof {
                            n = n + 1;
                            assert(steps(p0, c0, n) =~= self.config(
                                output@,
                                Status::Failed(BrainfuckError::MemoryOverflow),
                            ));
                        }
                        return Err(e);
                    },
                }
            } else if instruction == INSTR_INC {
                self.increment();
                self.pc = self.pc + 1;
                proof {
                    n = n + 1;
                    assert(steps(p0, c0, n) =~= self.config(output@, Status::Running));
                }
            } else if instruction == INSTR_DEC {
                self.decrement();
                self.pc = self.pc + 1;
                proof {
                    n = n + 1;
                    assert(steps(p0, c0, n) =~= self.config(output@, Status::Running));
                }
            } else if instruction == INSTR_OUT {
                let value = self.read();
                output.push(value);
                self.pc = self.pc + 1;
                proof {
                    n = n + 1;
                    assert(steps(p0, c0, n) =~= self.config(output@, Status::Running));
                }
            } else if instruction == INSTR_IN {
                let value = match self.input_buffer.pop_front() {
                    Some(b) => b,
                    None => 0u8,
                };
                self.write(value);
                self.pc = self.pc + 1;
                proof {
                    n = n + 1;
                    assert(steps(p0, c0, n) =~= self.config(output@, Status::Running));
                }
            } else if instruction == INSTR_OPEN {
                if self.read() == 0 {
                    let target = match &self.program {
                        Some(p) => scan_forward(p, self.pc),
                        None => None,
                    };
                    match target {
                        Some(a) => {
                            self.pc = a + 1;
                            proof {
                                n = n + 1;
                                assert(steps(p0, c0, n) =~= self.config(
                                    output@,
                                    Status::Running,
                                ));
                            }
                        },
                        None => {
                            proof {
                                n = n + 1;
                                assert(steps(p0, c0, n) =~= self.config(
                                    output@,
                                    Status::Failed(BrainfuckError::UnmatchedJump),
                                ));
                            }
                            return Err(BrainfuckError::UnmatchedJump);
                        },
                    }
                } else {
                    self.pc = self.pc + 1;
                    proof {
                        n = n + 1;
                        assert(steps(p0, c0, n) =~= self.config(output@, Status::Running));
                    }
                }
            } else if instruction == INSTR_CLOSE {
                if self.read() != 0 {
                    let target = match &self.program {
                        Some(p) => scan_backward(p, self.pc),
                        None => None,
                    };
                    match target {
                        Some(a) => {
                            self.pc = a + 1;
                            proof {
                                n = n + 1;
                                assert(steps(p0, c0, n) =~= self.config(
                                    output@,
                                    Status::Running,
                                ));
                            }
                        },
                        None => {
                            proof {
                                n = n + 1;
                                assert(steps(p0, c0, n) =~= self.config(
                                    output@,
                                    Status::Failed(BrainfuckError::UnmatchedJump),
                                ));
                            }
                            return Err(BrainfuckError::UnmatchedJump);
                        },
                    }
                } else {
                    self.pc = self.pc + 1;
                    proof {
                        n = n + 1;
                        assert(steps(p0, c0, n) =~= self.config(output@, Status::Running));
                    }
                }
            } else {
                proof {
                    n = n + 1;
                    assert(steps(p0, c0, n) =~= self.config(
                        output@,
                        Status::Failed(BrainfuckError::BadInput(instruction as char)),
                    ));
                }
                return Err(BrainfuckError::BadInput(instruction as char));
            }
        }
        proof {
            let cfin = steps(p0, c0, n);
            n = n + 1;
            assert(steps(p0, c0, n) == step(p0, cfin));
            assert(steps(p0, c0, n) =~= self.config(output@, Status::Done));
        }
        Ok(output)
    }
}

/// Scans forward from the `[` at `pc` for the matching `]`, maintaining the
/// nesting counter, exactly as `find_close` describes; `None` means the scan
/// ran off the end of the program.
#[verifier::loop_isolation(false)]
fn scan_forward(program: &Vec<u8>, pc: usize) -> (r: Option<usize>)
    requires
        pc < program@.len(),
    ensures
        match r {
            Some(a) => find_close(program@, pc as int + 1, 0) == Some(a as int) && pc < a
                < program@.len(),
            None => find_close(program@, pc as int + 1, 0) is None,
        },
{
    let prog_len = program.len();
    let mut depth: usize = 0;
    let mut address: usize = pc;
    loop
        invariant
            pc <= address < prog_len,
            depth <= address - pc,
            find_close(program@, pc as int + 1, 0) == find_close(
                program@,
                address as int + 1,
                depth as nat,
            ),
        decreases program@.len() - address,
    {
        address = address + 1;
        if address == prog_len {
            return None;
        }
        let b = program[address];
        if b == INSTR_CLOSE {
            if depth == 0 {
                return Some(address);
            }
            depth = depth - 1;
        } else if b == INSTR_OPEN {
            depth = depth + 1;
        }
    }
}

/// Scans backward from the `]` at `pc` for the matching `[`, maintaining the
/// nesting counter, exactly as `find_open` describes; `None` means the scan
/// ran off the start of the program.
#[verifier::loop_isolation(false)]
fn scan_backward(program: &Vec<u8>, pc: usize) -> (r: Option<usize>)
    requires
        pc < program@.len(),
    ensures
        match r {
            Some(a) => find_open(program@, pc as int - 1, 0) == Some(a as int) && a < pc,
            None => find_open(program@, pc as int - 1, 0) is None,
        },
{
    let mut depth: usize = 0;
    let mut address: usize = pc;
    loop
        invariant
            address <= pc,
            depth <= pc - address,
            find_open(program@, pc as int - 1, 0) == find_open(
                program@,
                address as int - 1,
                depth as nat,
            ),
        decreases address,
    {
        if address == 0 {
            return None;
        }
        address = address - 1;
        let b = program[address];
        if b == INSTR_OPEN {
            if depth == 0 {
                return Some(address);
            }
            depth = depth - 1;
        } else if b == INSTR_CLOSE {
            depth = depth + 1;
        }
    }
}

} // verus!
