//! The target machine, as far as the generated code uses it: what running
//! a listing does to the registers and the memory.
//!
//! The machine has 16-bit words, an address register `A`, an accumulator
//! `D` and a memory of 32768 cells. `M` stands for the cell whose address
//! `A` holds. Nothing here is executable: the model is what the laws
//! about the generated code are stated over.

use crate::text::{decimal_value, is_decimal};
use vstd::prelude::*;

verus! {

/// The number of values of a word.
pub open spec fn word_count() -> int {
    0x10000
}

/// The number of cells of the memory.
pub open spec fn cell_count() -> int {
    0x8000
}

/// The word that a number is cut down to.
pub open spec fn word(x: int) -> int {
    x % word_count()
}

/// The cell that a word addresses.
pub open spec fn cell(x: int) -> int {
    x % cell_count()
}

/// The number that a word stands for when it is read with a sign.
pub open spec fn signed(x: int) -> int {
    if x >= cell_count() {
        x - word_count()
    } else {
        x
    }
}

/// The registers and the memory.
pub struct Machine {
    /// The address register.
    pub a: int,
    /// The accumulator.
    pub d: int,
    /// The memory: for each cell the word it holds.
    pub ram: Map<int, int>,
}

/// The addresses that the assembler gives to the names of a program.
pub type Symbols = Map<Seq<char>, int>;

impl Machine {
    /// Whether the registers and all cells hold words.
    pub open spec fn wf(self) -> bool {
        &&& 0 <= self.a < word_count()
        &&& 0 <= self.d < word_count()
        &&& forall|k: int|
            0 <= k < cell_count() ==> self.ram.dom().contains(k) && 0 <= #[trigger] self.ram[k]
                < word_count()
    }

    /// The word in the cell with address `at`.
    pub open spec fn read(self, at: int) -> int {
        self.ram[cell(at)]
    }

    /// The machine after `value` was stored in the cell with address `at`.
    pub open spec fn write(self, at: int, value: int) -> Machine {
        Machine { ram: self.ram.insert(cell(at), value), ..self }
    }

    /// The stack pointer.
    pub open spec fn sp(self) -> int {
        self.ram[0]
    }

    /// The base of the local variables.
    pub open spec fn lcl(self) -> int {
        self.ram[1]
    }

    /// The base of the arguments.
    pub open spec fn arg(self) -> int {
        self.ram[2]
    }

    /// The base of the `this` segment.
    pub open spec fn this(self) -> int {
        self.ram[3]
    }

    /// The base of the `that` segment.
    pub open spec fn that(self) -> int {
        self.ram[4]
    }
}

/// The address of a name that the assembler knows without a declaration.
pub open spec fn predefined(name: Seq<char>) -> Option<int> {
    if name == "SP"@ {
        Some(0)
    } else if name == "LCL"@ {
        Some(1)
    } else if name == "ARG"@ {
        Some(2)
    } else if name == "THIS"@ {
        Some(3)
    } else if name == "THAT"@ {
        Some(4)
    } else if name == "R13"@ {
        Some(13)
    } else if name == "R0"@ {
        Some(0)
    } else if name == "R1"@ {
        Some(1)
    } else if name == "R2"@ {
        Some(2)
    } else if name == "R3"@ {
        Some(3)
    } else if name == "R4"@ {
        Some(4)
    } else if name == "R5"@ {
        Some(5)
    } else if name == "R6"@ {
        Some(6)
    } else if name == "R7"@ {
        Some(7)
    } else if name == "R8"@ {
        Some(8)
    } else if name == "R9"@ {
        Some(9)
    } else if name == "R10"@ {
        Some(10)
    } else if name == "R11"@ {
        Some(11)
    } else if name == "R12"@ {
        Some(12)
    } else if name == "R14"@ {
        Some(14)
    } else if name == "R15"@ {
        Some(15)
    } else if name == "SCREEN"@ {
        Some(0x4000)
    } else if name == "KBD"@ {
        Some(0x6000)
    } else {
        None
    }
}

/// The value that `@text` loads: the number that a numeral denotes, the
/// address of a predefined name, or what the symbol table gives.
pub open spec fn resolve(text: Seq<char>, symbols: Symbols) -> int {
    if is_decimal(text) {
        decimal_value(text) as int
    } else {
        match predefined(text) {
            Some(address) => address,
            None => symbols[text],
        }
    }
}

/// Where the `=` of a computation stands; 0 if it has no destination.
pub open spec fn assign_at(line: Seq<char>) -> int {
    if line.len() > 1 && line[1] == '=' {
        1
    } else if line.len() > 2 && line[2] == '=' {
        2
    } else if line.len() > 3 && line[3] == '=' {
        3
    } else {
        0
    }
}

/// Whether `register` is among the first `count` characters of `line`.
pub open spec fn names_register(line: Seq<char>, count: int, register: char) -> bool {
    ||| (count > 0 && line[0] == register)
    ||| (count > 1 && line[1] == register)
    ||| (count > 2 && line[2] == register)
}

/// Where the `;` of a computation without its destination stands; the
/// length of the text if it has no jump.
pub open spec fn jump_at(rest: Seq<char>) -> int {
    if rest.len() > 1 && rest[1] == ';' {
        1
    } else if rest.len() > 2 && rest[2] == ';' {
        2
    } else if rest.len() > 3 && rest[3] == ';' {
        3
    } else {
        rest.len() as int
    }
}

/// The value of an operand of a computation.
pub open spec fn operand(name: char, m: Machine) -> int {
    if name == '0' {
        0
    } else if name == '1' {
        1
    } else if name == 'D' {
        m.d
    } else if name == 'A' {
        m.a
    } else {
        m.read(m.a)
    }
}

/// The bits of a word, each one turned.
pub open spec fn complement(x: int) -> int {
    word_count() - 1 - x
}

/// The value of a computation: an operand, an operand with `-` or `!`
/// before it, or two operands with `+`, `-`, `&` or `|` between them.
pub open spec fn computed(comp: Seq<char>, m: Machine) -> int {
    if comp.len() == 1 {
        operand(comp[0], m)
    } else if comp.len() == 2 {
        if comp[0] == '-' {
            word(-operand(comp[1], m))
        } else {
            complement(operand(comp[1], m))
        }
    } else {
        let x = operand(comp[0], m);
        let y = operand(comp[2], m);
        if comp[1] == '+' {
            word(x + y)
        } else if comp[1] == '-' {
            word(x - y)
        } else if comp[1] == '&' {
            (x as u16 & y as u16) as int
        } else {
            (x as u16 | y as u16) as int
        }
    }
}

/// Whether the jump with the mnemonic `jump` is taken on the value `v`.
pub open spec fn jumps(jump: Seq<char>, v: int) -> bool {
    if jump.len() != 3 {
        false
    } else if jump[1] == 'M' {
        true
    } else if jump[1] == 'E' {
        v == 0
    } else if jump[1] == 'N' {
        v != 0
    } else if jump[1] == 'G' && jump[2] == 'T' {
        signed(v) > 0
    } else if jump[1] == 'G' {
        signed(v) >= 0
    } else if jump[2] == 'T' {
        signed(v) < 0
    } else {
        signed(v) <= 0
    }
}

/// Where a run of a listing has led.
pub struct Run {
    /// The registers and the memory at the end.
    pub machine: Machine,
    /// The address that the run has jumped to, if it has not fallen
    /// through the end of the listing.
    pub jumped: Option<int>,
}

/// What one line does. `@text` loads an address; a label declaration does
/// nothing; a computation stores its value in each register that its
/// destination names, `M` being the cell that `A` addressed before, and
/// jumps to the address in `A` if its jump is taken.
pub open spec fn step(line: Seq<char>, m: Machine, symbols: Symbols) -> Run {
    if line.len() == 0 || line[0] == '(' {
        Run { machine: m, jumped: None }
    } else if line[0] == '@' {
        Run { machine: Machine { a: word(resolve(line.skip(1), symbols)), ..m }, jumped: None }
    } else {
        let k = assign_at(line);
        let rest = if k == 0 {
            line
        } else {
            line.skip(k + 1)
        };
        let j = jump_at(rest);
        let v = computed(rest.take(j), m);
        let stored = if names_register(line, k, 'M') {
            m.write(m.a, v)
        } else {
            m
        };
        let next = Machine {
            a: if names_register(line, k, 'A') {
                v
            } else {
                m.a
            },
            d: if names_register(line, k, 'D') {
                v
            } else {
                m.d
            },
            ram: stored.ram,
        };
        Run {
            machine: next,
            jumped: if j < rest.len() && jumps(rest.skip(j + 1), v) {
                Some(m.a)
            } else {
                None
            },
        }
    }
}

/// What running a listing from its first line does: line after line, up
/// to the end or to the first jump that is taken.
pub open spec fn run(code: Seq<Seq<char>>, m: Machine, symbols: Symbols) -> Run
    decreases code.len(),
{
    if code.len() == 0 {
        Run { machine: m, jumped: None }
    } else {
        let first = step(code[0], m, symbols);
        if first.jumped is Some {
            first
        } else {
            run(code.skip(1), first.machine, symbols)
        }
    }
}

/// Running two listings one after the other is running the first and,
/// unless it jumps, the second from where the first has led.
pub proof fn lemma_run_concat(a: Seq<Seq<char>>, b: Seq<Seq<char>>, m: Machine, symbols: Symbols)
    ensures
        run(a + b, m, symbols) == if run(a, m, symbols).jumped is Some {
            run(a, m, symbols)
        } else {
            run(b, run(a, m, symbols).machine, symbols)
        },
    decreases a.len(),
{
    if a.len() == 0 {
        assert(a + b =~= b);
    } else {
        assert((a + b)[0] == a[0]);
        assert((a + b).skip(1) =~= a.skip(1) + b);
        let first = step(a[0], m, symbols);
        if first.jumped is None {
            lemma_run_concat(a.skip(1), b, first.machine, symbols);
        }
    }
}

} // verus!
