//! The machine: registers, instruction store, data store with its
//! memory-mapped screen and keyboard, and the one-cycle step.
use vstd::prelude::*;
use crate::alu::{alu_in_x, alu_in_y, alu_out, compute, is_negative};
use crate::loader::{is_program, parse_program, program_words};
use vstd::string::StringSliceAdditionalSpecFns;
use vstd::arithmetic::div_mod::{lemma_mod_add_multiples_vanish, lemma_small_mod};

verus! {

/// Words in the instruction store.
pub const ROM_SIZE: usize = 0x8000;

/// Cycles that one call of `Emu::run` performs at most.
pub const RUN_CYCLES: usize = 10_000;

/// Words in the data store, the keyboard register included.
pub const RAM_SIZE: usize = 0x6001;

/// First address of the screen bitmap.
pub const SCREEN_START: u16 = 0x4000;

/// One past the last address of the screen bitmap.
pub const SCREEN_END: u16 = 0x6000;

/// Address of the keyboard register.
pub const KEYBOARD: u16 = 0x6000;

/// Why an operation was rejected.
#[derive(Clone, Copy, Debug, PartialEq, Eq, Structural)]
pub enum EmuError {
    /// A program text that is not lines of sixteen binary digits, or that has
    /// more lines than the instruction store has words.
    FormatError,
    /// An address outside the instruction store or the data store.
    OutOfRange,
}

/// A write into the screen range of the data store, for the display.
#[derive(Clone, Copy, Debug, PartialEq, Eq, Structural)]
pub struct ScreenWrite {
    pub address: u16,
    pub value: u16,
}

/// The machine as a mathematical value.
pub struct EmuView {
    /// Program counter: index of the next instruction.
    pub pc: u16,
    /// Address register.
    pub ra: u16,
    /// Data register.
    pub rd: u16,
    /// Memory operand, latched from the data store at the start of a cycle.
    pub rm: u16,
    /// Instruction store.
    pub rom: Seq<u16>,
    /// Data store: general words, the screen bitmap, the keyboard register.
    pub ram: Seq<u16>,
    /// ALU first operand as the last ALU run left it.
    pub x: u16,
    /// ALU second operand as the last ALU run left it.
    pub y: u16,
    /// The last ALU result was zero.
    pub zr: bool,
    /// The last ALU result was negative.
    pub ng: bool,
}

/// The machine state that the emulator keeps.
pub struct Emu {
    pc: u16,
    ra: u16,
    rd: u16,
    rm: u16,
    rom: Vec<u16>,
    ram: Vec<u16>,
    x: u16,
    y: u16,
    zr: bool,
    ng: bool,
}

impl View for Emu {
    type V = EmuView;

    closed spec fn view(&self) -> EmuView {
        EmuView {
            pc: self.pc,
            ra: self.ra,
            rd: self.rd,
            rm: self.rm,
            rom: self.rom@,
            ram: self.ram@,
            x: self.x,
            y: self.y,
            zr: self.zr,
            ng: self.ng,
        }
    }
}

/// Both stores have their sizes and the program counter lies in the
/// instruction store.
pub open spec fn wf_view(s: EmuView) -> bool {
    &&& s.rom.len() == ROM_SIZE
    &&& s.ram.len() == RAM_SIZE
    &&& (s.pc as int) < ROM_SIZE
}

/// The address lies in the screen bitmap.
pub open spec fn in_screen(address: u16) -> bool {
    SCREEN_START <= address < SCREEN_END
}

/// A compute-instruction has its high bit set.
pub open spec fn is_compute(inst: u16) -> bool {
    inst >> 15 == 1
}

/// The a-bit: the ALU's second operand is the data store word.
pub open spec fn a_bit(inst: u16) -> bool {
    (inst >> 12) & 1 == 1
}

/// The control code handed to the ALU (the a-bit rides along in bit 6).
pub open spec fn comp_field(inst: u16) -> u16 {
    (inst & 0x1fc0) >> 6
}

/// The destination code.
pub open spec fn dest_field(inst: u16) -> u16 {
    (inst & 0x0038) >> 3
}

/// The jump code.
pub open spec fn jump_field(inst: u16) -> u16 {
    inst & 0x0007
}

/// The jump condition on the ALU flags.
pub open spec fn jump_taken(jump: u16, zr: bool, ng: bool) -> bool {
    if jump == 0 {
        false
    } else if jump == 1 {
        !(zr || ng)
    } else if jump == 2 {
        zr
    } else if jump == 3 {
        !ng
    } else if jump == 4 {
        ng
    } else if jump == 5 {
        !zr
    } else if jump == 6 {
        ng || zr
    } else {
        true
    }
}

/// The next instruction in sequence; past the last word it wraps to the first.
pub open spec fn next_pc(pc: u16) -> u16 {
    if pc as int + 1 < ROM_SIZE { (pc + 1) as u16 } else { 0 }
}

/// The memory operand latched at the start of a cycle: the data store word at
/// the address register, or the previous value when that lies outside.
pub open spec fn latched_m(s: EmuView) -> u16 {
    if (s.ra as int) < RAM_SIZE { s.ram[s.ra as int] } else { s.rm }
}

/// One cycle. Destination writes use the register values from the start of
/// the cycle, the jump goes to the address register as it stood then, and a
/// program's write to the keyboard register is dropped. The cycle is refused,
/// with nothing changed, when it would read or write the data store, or
/// jump, outside its bounds.
pub open spec fn step(s: EmuView) -> Result<(EmuView, Option<ScreenWrite>), EmuError> {
    let m = latched_m(s);
    let inst = s.rom[s.pc as int];
    if !is_compute(inst) {
        Ok((EmuView { pc: next_pc(s.pc), ra: inst & 0x7fff, rm: m, ..s }, None))
    } else {
        let comp = comp_field(inst);
        let dest = dest_field(inst);
        let in_ram = (s.ra as int) < RAM_SIZE;
        let writes_m = dest & 1 == 1;
        let y = if a_bit(inst) { m } else { s.ra };
        let out = alu_out(s.rd, y, comp);
        let zr = out == 0;
        let ng = is_negative(out);
        let taken = jump_taken(jump_field(inst), zr, ng);
        if (a_bit(inst) || writes_m) && !in_ram {
            Err(EmuError::OutOfRange)
        } else if taken && (s.ra as int) >= ROM_SIZE {
            Err(EmuError::OutOfRange)
        } else {
            let stored = writes_m && s.ra != KEYBOARD;
            let t = EmuView {
                pc: if taken { s.ra } else { next_pc(s.pc) },
                ra: if dest & 4 == 4 { out } else { s.ra },
                rd: if dest & 2 == 2 { out } else { s.rd },
                rm: m,
                rom: s.rom,
                ram: if stored { s.ram.update(s.ra as int, out) } else { s.ram },
                x: alu_in_x(s.rd, comp),
                y: alu_in_y(y, comp),
                zr,
                ng,
            };
            let w = if stored && in_screen(s.ra) {
                Some(ScreenWrite { address: s.ra, value: out })
            } else {
                None
            };
            Ok((t, w))
        }
    }
}

/// The instruction store after loading `words`: they come first, zeros after.
pub open spec fn loaded_rom(words: Seq<u16>) -> Seq<u16> {
    Seq::new(ROM_SIZE as nat, |i: int| if i < words.len() { words[i] } else { 0u16 })
}

/// The machine after a reset: registers and data store zero, the
/// instruction store kept.
pub open spec fn reset_view(s: EmuView) -> EmuView {
    EmuView {
        pc: 0,
        ra: 0,
        rd: 0,
        rm: 0,
        rom: s.rom,
        ram: Seq::new(RAM_SIZE as nat, |i: int| 0u16),
        x: 0,
        y: 0,
        zr: false,
        ng: false,
    }
}

/// The screen write of a cycle as a sequence of none or one.
pub open spec fn writes_of(w: Option<ScreenWrite>) -> Seq<ScreenWrite> {
    match w {
        Some(x) => seq![x],
        None => Seq::empty(),
    }
}

/// Up to `n` cycles from `s`, stopping at the first refused one: the final
/// machine, the screen writes in order, and the error that stopped it.
pub open spec fn run_cycles(s: EmuView, n: nat) -> (EmuView, Seq<ScreenWrite>, Option<EmuError>)
    decreases n,
{
    if n == 0 {
        (s, Seq::empty(), None)
    } else {
        match step(s) {
            Err(e) => (s, Seq::empty(), Some(e)),
            Ok((t, w)) => {
                let (u, ws, e) = run_cycles(t, (n - 1) as nat);
                (u, writes_of(w) + ws, e)
            },
        }
    }
}

/// Evaluates the jump code on the ALU flags.
pub fn jump_condition(jump: u16, zr: bool, ng: bool) -> (r: bool)
    ensures
        r == jump_taken(jump, zr, ng),
{
    match jump {
        0 => false,
        1 => !(zr || ng),
        2 => zr,
        3 => !ng,
        4 => ng,
        5 => !zr,
        6 => ng || zr,
        _ => true,
    }
}

impl Emu {
    /// The machine's invariant: store sizes and the program counter's range.
    pub open spec fn wf(&self) -> bool {
        wf_view(self@)
    }

    /// A fresh machine: registers, data store and instruction store all zero.
    pub fn new() -> (r: Emu)
        ensures
            r.wf(),
            r@.pc == 0 && r@.ra == 0 && r@.rd == 0 && r@.rm == 0,
            r@.x == 0 && r@.y == 0 && !r@.zr && !r@.ng,
            r@.rom == Seq::new(ROM_SIZE as nat, |i: int| 0u16),
            r@.ram == Seq::new(RAM_SIZE as nat, |i: int| 0u16),
    {
        let rom = vec![0u16; ROM_SIZE];
        let ram = vec![0u16; RAM_SIZE];
        assert(rom@ =~= Seq::new(ROM_SIZE as nat, |i: int| 0u16));
        assert(ram@ =~= Seq::new(RAM_SIZE as nat, |i: int| 0u16));
        Emu { pc: 0, ra: 0, rd: 0, rm: 0, rom, ram, x: 0, y: 0, zr: false, ng: false }
    }

    /// Runs the ALU on the latched operands `x` and `y` under `comp`; keeps the
    /// operands after the zero/negate flags and sets the zero and negative flags.
    pub fn alu(&mut self, comp: u16) -> (r: u16)
        requires
            old(self).wf(),
        ensures
            final(self).wf(),
            r == alu_out(old(self)@.x, old(self)@.y, comp),
            final(self)@ == (EmuView {
                x: alu_in_x(old(self)@.x, comp),
                y: alu_in_y(old(self)@.y, comp),
                zr: r == 0,
                ng: is_negative(r),
                ..old(self)@
            }),
    {
        let (out, zr, ng) = compute(self.x, self.y, comp);
        let nx = if (comp >> 5) & 1 == 1 { 0u16 } else { self.x };
        let nx = if (comp >> 4) & 1 == 1 { !nx } else { nx };
        let ny = if (comp >> 3) & 1 == 1 { 0u16 } else { self.y };
        let ny = if (comp >> 2) & 1 == 1 { !ny } else { ny };
        self.x = nx;
        self.y = ny;
        self.zr = zr;
        self.ng = ng;
        out
    }

    /// Advances one cycle (see `step`). Returns the screen write that the
    /// cycle made, if any; on a refused cycle nothing changes.
    pub fn tick(&mut self) -> (r: Result<Option<ScreenWrite>, EmuError>)
        requires
            old(self).wf(),
        ensures
            final(self).wf(),
            match r {
                Ok(w) => step(old(self)@) == Ok::<(EmuView, Option<ScreenWrite>), EmuError>(
                    (final(self)@, w),
                ),
                Err(e) => step(old(self)@) == Err::<(EmuView, Option<ScreenWrite>), EmuError>(e)
                    && final(self)@ == old(self)@,
            },
    {
        let in_ram = (self.ra as usize) < RAM_SIZE;
        let m = if in_ram { self.ram[self.ra as usize] } else { self.rm };
        let inst = self.rom[self.pc as usize];
        let next = if (self.pc as usize) + 1 < ROM_SIZE { self.pc + 1 } else { 0 };
        if inst >> 15 != 1 {
            self.rm = m;
            self.ra = inst & 0x7fff;
            self.pc = next;
            return Ok(None);
        }
        let a = (inst >> 12) & 1 == 1;
        let comp = (inst & 0x1fc0) >> 6;
        let dest = (inst & 0x0038) >> 3;
        let jump = inst & 0x0007;
        let writes_m = dest & 1 == 1;
        if (a || writes_m) && !in_ram {
            return Err(EmuError::OutOfRange);
        }
        let y = if a { m } else { self.ra };
        let (out, zr, ng) = compute(self.rd, y, comp);
        let taken = jump_condition(jump, zr, ng);
        if taken && (self.ra as usize) >= ROM_SIZE {
            return Err(EmuError::OutOfRange);
        }
        let pre_ra = self.ra;
        self.rm = m;
        self.x = self.rd;
        self.y = y;
        let res = self.alu(comp);
        let stored = writes_m && pre_ra != KEYBOARD;
        if stored {
            self.ram.set(pre_ra as usize, res);
        }
        if dest & 2 == 2 {
            self.rd = res;
        }
        if dest & 4 == 4 {
            self.ra = res;
        }
        self.pc = if taken { pre_ra } else { next };
        if stored && SCREEN_START <= pre_ra && pre_ra < SCREEN_END {
            Ok(Some(ScreenWrite { address: pre_ra, value: res }))
        } else {
            Ok(None)
        }
    }

    /// Writes `value` at `address` of the data store; returns the write for the
    /// display when the address lies in the screen range.
    pub fn store_ram(&mut self, address: u16, value: u16) -> (r: Result<Option<ScreenWrite>, EmuError>)
        requires
            old(self).wf(),
        ensures
            final(self).wf(),
            (address as int) < RAM_SIZE ==> r == Ok::<Option<ScreenWrite>, EmuError>(
                if in_screen(address) {
                    Some(ScreenWrite { address, value })
                } else {
                    None
                },
            ) && final(self)@ == (EmuView {
                ram: old(self)@.ram.update(address as int, value),
                ..old(self)@
            }),
            (address as int) >= RAM_SIZE ==> r == Err::<Option<ScreenWrite>, EmuError>(
                EmuError::OutOfRange,
            ) && final(self)@ == old(self)@,
    {
        if (address as usize) >= RAM_SIZE {
            return Err(EmuError::OutOfRange);
        }
        self.ram.set(address as usize, value);
        if SCREEN_START <= address && address < SCREEN_END {
            Ok(Some(ScreenWrite { address, value }))
        } else {
            Ok(None)
        }
    }

    /// The data store word at `address`.
    pub fn read_ram(&self, address: u16) -> (r: Result<u16, EmuError>)
        requires
            self.wf(),
        ensures
            (address as int) < RAM_SIZE ==> r == Ok::<u16, EmuError>(self@.ram[address as int]),
            (address as int) >= RAM_SIZE ==> r == Err::<u16, EmuError>(EmuError::OutOfRange),
    {
        if (address as usize) < RAM_SIZE {
            Ok(self.ram[address as usize])
        } else {
            Err(EmuError::OutOfRange)
        }
    }

    /// Replaces the instruction store with the program in `code`, zeros
    /// after it. A text that is not a program is refused whole, with nothing
    /// changed.
    pub fn load_rom(&mut self, code: &str) -> (r: Result<(), EmuError>)
        requires
            old(self).wf(),
        ensures
            final(self).wf(),
            r is Ok <==> is_program(code.spec_bytes()),
            r is Ok ==> final(self)@ == (EmuView {
                rom: loaded_rom(program_words(code.spec_bytes())),
                ..old(self)@
            }),
            r is Err ==> r == Err::<(), EmuError>(EmuError::FormatError) && final(self)@ == old(self)@,
    {
        let words = match parse_program(code) {
            Ok(w) => w,
            Err(e) => {
                return Err(e);
            },
        };
        let ghost w0 = words@;
        let mut rom = words;
        while rom.len() < ROM_SIZE
            invariant
                w0.len() <= rom.len() <= ROM_SIZE,
                forall|i: int| 0 <= i < rom.len() ==> rom@[i] == (if i < w0.len() { w0[i] } else { 0u16 }),
            decreases ROM_SIZE - rom.len(),
        {
            rom.push(0);
        }
        proof {
            assert(rom@ =~= loaded_rom(w0));
        }
        self.rom = rom;
        Ok(())
    }

    /// Zeroes the registers and the data store; the instruction store stays.
    pub fn reset(&mut self)
        requires
            old(self).wf(),
        ensures
            final(self).wf(),
            final(self)@ == reset_view(old(self)@),
    {
        let ram = vec![0u16; RAM_SIZE];
        proof {
            assert(ram@ =~= Seq::new(RAM_SIZE as nat, |i: int| 0u16));
        }
        self.ram = ram;
        self.pc = 0;
        self.ra = 0;
        self.rd = 0;
        self.rm = 0;
        self.x = 0;
        self.y = 0;
        self.zr = false;
        self.ng = false;
    }

    /// Runs up to `RUN_CYCLES` cycles, stopping at the first refused one, and
    /// appends the screen writes made to `writes`.
    pub fn run(&mut self, writes: &mut Vec<ScreenWrite>) -> (r: Result<(), EmuError>)
        requires
            old(self).wf(),
        ensures
            final(self).wf(),
            final(self)@ == run_cycles(old(self)@, RUN_CYCLES as nat).0,
            final(writes)@ == old(writes)@ + run_cycles(old(self)@, RUN_CYCLES as nat).1,
            r == (match run_cycles(old(self)@, RUN_CYCLES as nat).2 {
                None => Ok::<(), EmuError>(()),
                Some(e) => Err(e),
            }),
    {
        let ghost s0 = self@;
        let ghost w0 = writes@;
        let ghost mut acc: Seq<ScreenWrite> = Seq::empty();
        let mut i: usize = 0;
        proof {
            assert(w0 + acc =~= w0);
            let x = run_cycles(s0, RUN_CYCLES as nat);
            assert(acc + x.1 =~= x.1);
        }
        while i < RUN_CYCLES
            invariant
                self.wf(),
                s0 == old(self)@,
                w0 == old(writes)@,
                i <= RUN_CYCLES,
                writes@ == w0 + acc,
                ({
                    let x = run_cycles(self@, (RUN_CYCLES - i) as nat);
                    run_cycles(s0, RUN_CYCLES as nat) == (x.0, acc + x.1, x.2)
                }),
            decreases RUN_CYCLES - i,
        {
            let ghost before = self@;
            match self.tick() {
                Ok(w) => {
                    match w {
                        Some(x) => writes.push(x),
                        None => {},
                    }
                    proof {
                        let y = run_cycles(self@, (RUN_CYCLES - i - 1) as nat);
                        assert(acc + (writes_of(w) + y.1) =~= (acc + writes_of(w)) + y.1);
                        acc = acc + writes_of(w);
                        assert(writes@ =~= w0 + acc);
                    }
                },
                Err(e) => {
                    proof {
                        assert(run_cycles(before, (RUN_CYCLES - i) as nat) == (
                            before,
                            Seq::<ScreenWrite>::empty(),
                            Some(e),
                        ));
                        assert(acc + Seq::<ScreenWrite>::empty() =~= acc);
                    }
                    return Err(e);
                },
            }
            i = i + 1;
        }
        proof {
            assert(acc + Seq::<ScreenWrite>::empty() =~= acc);
        }
        Ok(())
    }

    /// Sets the keyboard register to `code`.
    pub fn inject_key(&mut self, code: u16)
        requires
            old(self).wf(),
        ensures
            final(self).wf(),
            final(self)@ == (EmuView { ram: old(self)@.ram.update(KEYBOARD as int, code), ..old(self)@ }),
    {
        self.ram.set(KEYBOARD as usize, code);
    }

    /// Sets the keyboard register to zero: no key pressed.
    pub fn clear_key(&mut self)
        requires
            old(self).wf(),
        ensures
            final(self).wf(),
            final(self)@ == (EmuView { ram: old(self)@.ram.update(KEYBOARD as int, 0), ..old(self)@ }),
    {
        self.ram.set(KEYBOARD as usize, 0);
    }

    /// The instruction store word at `address`.
    pub fn read_rom(&self, address: u16) -> (r: Result<u16, EmuError>)
        requires
            self.wf(),
        ensures
            (address as int) < ROM_SIZE ==> r == Ok::<u16, EmuError>(self@.rom[address as int]),
            (address as int) >= ROM_SIZE ==> r == Err::<u16, EmuError>(EmuError::OutOfRange),
    {
        if (address as usize) < ROM_SIZE {
            Ok(self.rom[address as usize])
        } else {
            Err(EmuError::OutOfRange)
        }
    }

    /// The program counter.
    pub fn pc(&self) -> (r: u16)
        ensures
            r == self@.pc,
    {
        self.pc
    }

    /// The address register.
    pub fn ra(&self) -> (r: u16)
        ensures
            r == self@.ra,
    {
        self.ra
    }

    /// The data register.
    pub fn rd(&self) -> (r: u16)
        ensures
            r == self@.rd,
    {
        self.rd
    }

    /// The memory operand latched at the start of the last cycle.
    pub fn rm(&self) -> (r: u16)
        ensures
            r == self@.rm,
    {
        self.rm
    }
}

/// Resetting twice leaves the machine as resetting once does.
pub proof fn lemma_reset_idempotent(s: EmuView)
    ensures
        reset_view(reset_view(s)) == reset_view(s),
{
}

/// The instruction store holds only zeros.
pub open spec fn rom_all_zero(s: EmuView) -> bool {
    forall|i: int| 0 <= i < s.rom.len() ==> #[trigger] s.rom[i] == 0
}

/// On an all-zero instruction store every cycle is `@0`: it is never refused,
/// sets the address register to zero, moves to the next instruction (wrapping
/// past the last word), and writes neither the data store nor the screen.
pub proof fn lemma_zero_rom_cycle(s: EmuView)
    requires
        wf_view(s),
        rom_all_zero(s),
    ensures
        step(s) == Ok::<(EmuView, Option<ScreenWrite>), EmuError>(
            (EmuView { pc: next_pc(s.pc), ra: 0, rm: latched_m(s), ..s }, None),
        ),
{
    assert(!is_compute(0u16)) by (bit_vector);
    assert(0u16 & 0x7fff == 0) by (bit_vector);
}

/// Any number of cycles on an all-zero instruction store: none is refused,
/// no screen write is made, only the address register, the latched operand
/// and the program counter change, and the counter advances by one per
/// cycle modulo the store size.
pub proof fn lemma_zero_rom_run(s: EmuView, n: nat)
    requires
        wf_view(s),
        rom_all_zero(s),
    ensures
        run_cycles(s, n).2 == None::<EmuError>,
        run_cycles(s, n).1 == Seq::<ScreenWrite>::empty(),
        run_cycles(s, n).0.rom == s.rom,
        run_cycles(s, n).0.ram == s.ram,
        run_cycles(s, n).0.rd == s.rd,
        n > 0 ==> run_cycles(s, n).0.ra == 0,
        run_cycles(s, n).0.pc as int == (s.pc as int + n) % (ROM_SIZE as int),
    decreases n,
{
    if n == 0 {
        lemma_small_mod(s.pc as nat, ROM_SIZE as nat);
    } else {
        lemma_zero_rom_cycle(s);
        let t = EmuView { pc: next_pc(s.pc), ra: 0, rm: latched_m(s), ..s };
        lemma_zero_rom_run(t, (n - 1) as nat);
        assert(Seq::<ScreenWrite>::empty() + Seq::<ScreenWrite>::empty() =~= Seq::<ScreenWrite>::empty());
        if s.pc as int + 1 >= ROM_SIZE {
            lemma_mod_add_multiples_vanish(n - 1, ROM_SIZE as int);
        }
    }
}

} // verus!
