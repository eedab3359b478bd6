//! Ghost model of the machine: configurations and a small-step interpreter.
//!
//! The executable engine in [`crate::machine`] is specified against this
//! model: running the machine produces exactly the outcome that iterating
//! [`step`] produces.

use vstd::prelude::*;

use crate::error::BrainfuckError;

verus! {

/// Number of cells on the memory tape; also one past the largest address.
pub const MEMORY_SIZE: usize = 65536;

/// The instruction `<`: move the address pointer left.
pub const INSTR_LEFT: u8 = 60;

/// The instruction `>`: move the address pointer right.
pub const INSTR_RIGHT: u8 = 62;

/// The instruction `+`: increment the current cell, wrapping.
pub const INSTR_INC: u8 = 43;

/// The instruction `-`: decrement the current cell, wrapping.
pub const INSTR_DEC: u8 = 45;

/// The instruction `.`: append the current cell to the output.
pub const INSTR_OUT: u8 = 46;

/// The instruction `,`: pop the front of the input queue into the cell.
pub const INSTR_IN: u8 = 44;

/// The instruction `[`: jump forward past the matching `]` if the cell is 0.
pub const INSTR_OPEN: u8 = 91;

/// The instruction `]`: jump back to just after the matching `[` if the cell
/// is not 0.
pub const INSTR_CLOSE: u8 = 93;

/// Whether a byte is one of the eight recognized instruction characters.
pub open spec fn is_instruction(b: u8) -> bool {
    ||| b == INSTR_LEFT
    ||| b == INSTR_RIGHT
    ||| b == INSTR_INC
    ||| b == INSTR_DEC
    ||| b == INSTR_OUT
    ||| b == INSTR_IN
    ||| b == INSTR_OPEN
    ||| b == INSTR_CLOSE
}

/// A cell increment: modulo 256, so 255 wraps to 0.
pub open spec fn inc_cell(v: u8) -> u8 {
    if v == 255 {
        0
    } else {
        (v + 1) as u8
    }
}

/// A cell decrement: modulo 256, so 0 wraps to 255.
pub open spec fn dec_cell(v: u8) -> u8 {
    if v == 0 {
        255
    } else {
        (v - 1) as u8
    }
}

/// Position of the matching `]` for a forward scan that stands at `i` with
/// `depth` enclosing same-direction brackets still open: the first `]` at
/// which the nesting counter would go negative, or `None` if the scan runs
/// off the end of the program.
pub open spec fn find_close(prog: Seq<u8>, i: int, depth: nat) -> Option<int>
    decreases prog.len() - i,
{
    if i < 0 || i >= prog.len() {
        None
    } else if prog[i] == INSTR_CLOSE {
        if depth == 0 {
            Some(i)
        } else {
            find_close(prog, i + 1, (depth - 1) as nat)
        }
    } else if prog[i] == INSTR_OPEN {
        find_close(prog, i + 1, depth + 1)
    } else {
        find_close(prog, i + 1, depth)
    }
}

/// Position of the matching `[` for a backward scan that stands at `i` with
/// `depth` enclosing same-direction brackets still open: the first `[` at
/// which the nesting counter would go negative, or `None` if the scan runs
/// off the start of the program.
pub open spec fn find_open(prog: Seq<u8>, i: int, depth: nat) -> Option<int>
    decreases i + 1,
{
    if i < 0 || i >= prog.len() {
        None
    } else if prog[i] == INSTR_OPEN {
        if depth == 0 {
            Some(i)
        } else {
            find_open(prog, i - 1, (depth - 1) as nat)
        }
    } else if prog[i] == INSTR_CLOSE {
        find_open(prog, i - 1, depth + 1)
    } else {
        find_open(prog, i - 1, depth)
    }
}

/// Whether a configuration is still running, has halted at the end of the
/// program, or has failed with an error.
pub enum Status {
    Running,
    Done,
    Failed(BrainfuckError),
}

/// A complete machine configuration during one run: the program counter,
/// the tape, the address pointer, the remaining input queue, the output
/// accumulated so far, and the run status. The loaded program is not part
/// of the configuration because it is immutable during a run.
#[verifier::ext_equal]
pub struct Config {
    pub pc: nat,
    pub mem: Seq<u8>,
    pub ap: nat,
    pub input: Seq<u8>,
    pub output: Seq<u8>,
    pub status: Status,
}

/// One dispatch step of the machine on program `prog`.
///
/// A configuration that is not running is left unchanged; a running
/// configuration whose program counter has reached the end of the program
/// halts successfully; otherwise the instruction under the program counter
/// is dispatched per the instruction table, and the program counter ends up
/// one past the dispatched instruction (for a taken jump, one past the
/// matching bracket).
pub open spec fn step(prog: Seq<u8>, c: Config) -> Config {
    if !(c.status is Running) {
        c
    } else if c.pc >= prog.len() {
        Config { status: Status::Done, ..c }
    } else {
        let b = prog[c.pc as int];
        let cell = c.mem[c.ap as int];
        if b == INSTR_LEFT {
            if c.ap == 0 {
                Config { status: Status::Failed(BrainfuckError::MemoryUnderflow), ..c }
            } else {
                Config { pc: c.pc + 1, ap: (c.ap - 1) as nat, ..c }
            }
        } else if b == INSTR_RIGHT {
            if c.ap >= MEMORY_SIZE - 1 {
                Config { status: Status::Failed(BrainfuckError::MemoryOverflow), ..c }
            } else {
                Config { pc: c.pc + 1, ap: c.ap + 1, ..c }
            }
        } else if b == INSTR_INC {
            Config { pc: c.pc + 1, mem: c.mem.update(c.ap as int, inc_cell(cell)), ..c }
        } else if b == INSTR_DEC {
            Config { pc: c.pc + 1, mem: c.mem.update(c.ap as int, dec_cell(cell)), ..c }
        } else if b == INSTR_OUT {
            Config { pc: c.pc + 1, output: c.output.push(cell), ..c }
        } else if b == INSTR_IN {
            if c.input.len() == 0 {
                Config { pc: c.pc + 1, mem: c.mem.update(c.ap as int, 0u8), ..c }
            } else {
                Config {
                    pc: c.pc + 1,
                    mem: c.mem.update(c.ap as int, c.input[0]),
                    input: c.input.subrange(1, c.input.len() as int),
                    ..c
                }
            }
        } else if b == INSTR_OPEN {
            if cell == 0 {
                match find_close(prog, c.pc as int + 1, 0) {
                    Some(m) => Config { pc: (m + 1) as nat, ..c },
                    None => Config { status: Status::Failed(BrainfuckError::UnmatchedJump), ..c },
                }
            } else {
                Config { pc: c.pc + 1, ..c }
            }
        } else if b == INSTR_CLOSE {
            if cell != 0 {
                match find_open(prog, c.pc as int - 1, 0) {
                    Some(m) => Config { pc: (m + 1) as nat, ..c },
                    None => Config { status: Status::Failed(BrainfuckError::UnmatchedJump), ..c },
                }
            } else {
                Config { pc: c.pc + 1, ..c }
            }
        } else {
            Config { status: Status::Failed(BrainfuckError::BadInput(b as char)), ..c }
        }
    }
}

/// The configuration reached from `c` after `n` steps on program `prog`.
pub open spec fn steps(prog: Seq<u8>, c: Config, n: nat) -> Config
    decreases n,
{
    if n == 0 {
        c
    } else {
        step(prog, steps(prog, c, (n - 1) as nat))
    }
}

/// Whether a run of `prog` from `c` halts: some number of steps leads out of
/// the running status, either by reaching the end of the program or by
/// failing. The source language is Turing-complete, so this genuinely does
/// not hold of every program.
pub open spec fn halts(prog: Seq<u8>, c: Config) -> bool {
    exists|k: nat| !((#[trigger] steps(prog, c, k)).status is Running)
}

/// The eight instruction characters are the entire format contract:
/// dispatching any byte outside the alphabet is fatal, failing with
/// `BadInput` naming that byte, and touches nothing else.
pub proof fn lemma_undefined_instruction_fails(prog: Seq<u8>, c: Config)
    requires
        (c.status is Running),
        c.pc < prog.len(),
        !is_instruction(prog[c.pc as int]),
    ensures
        step(prog, c) == (Config {
            status: Status::Failed(BrainfuckError::BadInput(prog[c.pc as int] as char)),
            ..c
        }),
{
}

} // verus!
