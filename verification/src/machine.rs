//! The machine state of the CHIP-8 virtual machine: 4096 bytes of memory,
//! sixteen 8-bit registers, the 16-bit index register, the program counter,
//! a 16-level call stack, two countdown timers, the 64x32 pixel surface and
//! the 16-key matrix, together with construction (font preloaded, pc at
//! 0x200) and ROM loading.

use vstd::prelude::*;

verus! {

/// Mathematical model of the machine state: every component as a plain
/// sequence or number, with no packing. Contracts throughout the crate
/// speak of this model, reached from `Chip8` through its view.
#[verifier::ext_equal]
pub ghost struct MachineModel {
    /// 4096 bytes; 0x000..0x050 hold the font, 0x200.. the program.
    pub memory: Seq<u8>,
    /// The sixteen registers V0..VF; index 15 is the flag register.
    pub v: Seq<u8>,
    /// The index register I (logically 12-bit, not masked).
    pub i: u16,
    /// The program counter.
    pub pc: u16,
    /// The call stack: sixteen slots for return addresses.
    pub stack: Seq<u16>,
    /// The stack pointer: number of occupied stack slots.
    pub sp: u16,
    /// The delay timer.
    pub delay: u8,
    /// The sound timer.
    pub sound: u8,
    /// The pixel surface: 2048 cells, row-major, 64 wide; each 0 or 1.
    pub gfx: Seq<u8>,
    /// The key matrix: 16 cells; nonzero means pressed.
    pub key: Seq<u8>,
    /// Set whenever an instruction altered the pixel surface.
    pub draw: bool,
}

impl MachineModel {
    /// Well-formedness: the fixed sizes of every component, the stack
    /// pointer bound, pixels restricted to {0, 1}, and stack slots holding
    /// only addresses from which an instruction was fetched.
    pub open spec fn wf(self) -> bool {
        &&& self.memory.len() == 4096
        &&& self.v.len() == 16
        &&& self.stack.len() == 16
        &&& self.gfx.len() == 2048
        &&& self.key.len() == 16
        &&& self.sp <= 16
        &&& forall|j: int| 0 <= j < 2048 ==> (self.gfx[j] == 0 || self.gfx[j] == 1)
        &&& forall|j: int| 0 <= j < 16 ==> self.stack[j] <= 4094
    }
}

/// A condition that halts emulation: a malformed program or a reference
/// outside the machine. The step operation reports it and leaves the
/// machine state exactly as it was.
#[derive(Clone, Copy, Debug, PartialEq, Eq, Structural)]
pub enum Fault {
    /// The fetched opcode matches no known pattern; carries the opcode.
    UnknownOpcode(u16),
    /// A call was made with all sixteen stack slots occupied.
    StackOverflow,
    /// A return was executed with an empty stack.
    StackUnderflow,
    /// The program counter does not address two bytes of memory.
    PcOutOfBounds,
    /// An instruction would read or write memory at or beyond 4096.
    MemOutOfBounds,
    /// A key instruction named a key index at or beyond 16.
    KeyOutOfBounds,
}

/// The recoverable loader error: the ROM does not fit in memory.
#[derive(Clone, Copy, Debug, PartialEq, Eq, Structural)]
pub enum LoadError {
    /// The ROM is longer than 3584 bytes (4096 minus the 512 reserved low bytes).
    RomTooLarge,
}

/// The fixed 80-byte font table: sixteen glyphs of five bytes each,
/// placed at memory 0x000..0x050 on construction.
pub open spec fn font_seq() -> Seq<u8> {
    seq![
        0xF0u8, 0x90, 0x90, 0x90, 0xF0, // 0
        0x20, 0x60, 0x20, 0x20, 0x70, // 1
        0xF0, 0x10, 0xF0, 0x80, 0xF0, // 2
        0xF0, 0x10, 0xF0, 0x10, 0xF0, // 3
        0x90, 0x90, 0xF0, 0x10, 0x10, // 4
        0xF0, 0x80, 0xF0, 0x10, 0xF0, // 5
        0xF0, 0x80, 0xF0, 0x90, 0xF0, // 6
        0xF0, 0x10, 0x20, 0x40, 0x40, // 7
        0xF0, 0x90, 0xF0, 0x90, 0xF0, // 8
        0xF0, 0x90, 0xF0, 0x10, 0xF0, // 9
        0xF0, 0x90, 0xF0, 0x90, 0x90, // A
        0xE0, 0x90, 0xE0, 0x90, 0xE0, // B
        0xF0, 0x80, 0x80, 0x80, 0xF0, // C
        0xE0, 0x90, 0x90, 0x90, 0xE0, // D
        0xF0, 0x80, 0xF0, 0x80, 0xF0, // E
        0xF0, 0x80, 0xF0, 0x80, 0x80, // F
    ]
}

/// The machine state at construction: font in low memory, everything else
/// zero, program counter at 0x200.
pub open spec fn initial_model() -> MachineModel {
    MachineModel {
        memory: Seq::new(4096, |j: int| if 0 <= j < 80 { font_seq()[j] } else { 0u8 }),
        v: Seq::new(16, |j: int| 0u8),
        i: 0,
        pc: 0x200,
        stack: Seq::new(16, |j: int| 0u16),
        sp: 0,
        delay: 0,
        sound: 0,
        gfx: Seq::new(2048, |j: int| 0u8),
        key: Seq::new(16, |j: int| 0u8),
        draw: false,
    }
}

/// Memory after a ROM was copied in at 0x200: the ROM bytes over
/// 0x200..0x200+len, everything else as before.
pub open spec fn loaded_memory(mem: Seq<u8>, rom: Seq<u8>) -> Seq<u8> {
    Seq::new(4096, |j: int| if 512 <= j < 512 + rom.len() { rom[j - 512] } else { mem[j] })
}

/// The CHIP-8 machine. The fields are public so that a host can write the
/// key matrix, read the pixel surface and clear the display flag; a host
/// must keep the view well formed (`wf`), which only means leaving every
/// component at its fixed length and writing pixels as 0 or 1.
pub struct Chip8 {
    pub memory: Vec<u8>,
    pub v: Vec<u8>,
    pub i: u16,
    pub pc: u16,
    pub stack: Vec<u16>,
    pub sp: u16,
    pub delay_timer: u8,
    pub sound_timer: u8,
    pub gfx: Vec<u8>,
    pub key: Vec<u8>,
    pub draw_flag: bool,
}

impl View for Chip8 {
    type V = MachineModel;

    open spec fn view(&self) -> MachineModel {
        MachineModel {
            memory: self.memory@,
            v: self.v@,
            i: self.i,
            pc: self.pc,
            stack: self.stack@,
            sp: self.sp,
            delay: self.delay_timer,
            sound: self.sound_timer,
            gfx: self.gfx@,
            key: self.key@,
            draw: self.draw_flag,
        }
    }
}

/// A vector of `n` zero bytes.
pub(crate) fn zero_bytes(n: usize) -> (r: Vec<u8>)
    ensures
        r@ == Seq::new(n as nat, |j: int| 0u8),
{
    let mut v: Vec<u8> = Vec::new();
    while v.len() < n
        invariant
            v@.len() <= n,
            forall|j: int| 0 <= j < v@.len() ==> v@[j] == 0u8,
        decreases n - v@.len(),
    {
        v.push(0u8);
    }
    proof {
        assert(v@ =~= Seq::new(n as nat, |j: int| 0u8));
    }
    v
}

/// A vector of `n` zero words.
fn zero_words(n: usize) -> (r: Vec<u16>)
    ensures
        r@ == Seq::new(n as nat, |j: int| 0u16),
{
    let mut v: Vec<u16> = Vec::new();
    while v.len() < n
        invariant
            v@.len() <= n,
            forall|j: int| 0 <= j < v@.len() ==> v@[j] == 0u16,
        decreases n - v@.len(),
    {
        v.push(0u16);
    }
    proof {
        assert(v@ =~= Seq::new(n as nat, |j: int| 0u16));
    }
    v
}

/// The 4096-byte memory at construction: the font table followed by zeros.
#[verifier::rlimit(60)]
fn initial_memory() -> (r: Vec<u8>)
    ensures
        r@ == initial_model().memory,
{
    let mut m: Vec<u8> = Vec::new();
    m.push(0xF0); m.push(0x90); m.push(0x90); m.push(0x90); m.push(0xF0);
    m.push(0x20); m.push(0x60); m.push(0x20); m.push(0x20); m.push(0x70);
    m.push(0xF0); m.push(0x10); m.push(0xF0); m.push(0x80); m.push(0xF0);
    m.push(0xF0); m.push(0x10); m.push(0xF0); m.push(0x10); m.push(0xF0);
    m.push(0x90); m.push(0x90); m.push(0xF0); m.push(0x10); m.push(0x10);
    m.push(0xF0); m.push(0x80); m.push(0xF0); m.push(0x10); m.push(0xF0);
    m.push(0xF0); m.push(0x80); m.push(0xF0); m.push(0x90); m.push(0xF0);
    m.push(0xF0); m.push(0x10); m.push(0x20); m.push(0x40); m.push(0x40);
    m.push(0xF0); m.push(0x90); m.push(0xF0); m.push(0x90); m.push(0xF0);
    m.push(0xF0); m.push(0x90); m.push(0xF0); m.push(0x10); m.push(0xF0);
    m.push(0xF0); m.push(0x90); m.push(0xF0); m.push(0x90); m.push(0x90);
    m.push(0xE0); m.push(0x90); m.push(0xE0); m.push(0x90); m.push(0xE0);
    m.push(0xF0); m.push(0x80); m.push(0x80); m.push(0x80); m.push(0xF0);
    m.push(0xE0); m.push(0x90); m.push(0x90); m.push(0x90); m.push(0xE0);
    m.push(0xF0); m.push(0x80); m.push(0xF0); m.push(0x80); m.push(0xF0);
    m.push(0xF0); m.push(0x80); m.push(0xF0); m.push(0x80); m.push(0x80);
    proof {
        assert(m@ =~= font_seq());
    }
    while m.len() < 4096
        invariant
            80 <= m@.len() <= 4096,
            forall|j: int| 0 <= j < 80 ==> m@[j] == font_seq()[j],
            forall|j: int| 80 <= j < m@.len() ==> m@[j] == 0u8,
        decreases 4096 - m@.len(),
    {
        m.push(0u8);
    }
    proof {
        assert(m@ =~= initial_model().memory);
    }
    m
}

impl Chip8 {
    /// A fresh machine: font preloaded, all numeric state zero, program
    /// counter at 0x200.
    pub fn new() -> (c: Chip8)
        ensures
            c@ == initial_model(),
            c@.wf(),
    {
        let c = Chip8 {
            memory: initial_memory(),
            v: zero_bytes(16),
            i: 0,
            pc: 0x200,
            stack: zero_words(16),
            sp: 0,
            delay_timer: 0,
            sound_timer: 0,
            gfx: zero_bytes(2048),
            key: zero_bytes(16),
            draw_flag: false,
        };
        proof {
            assert(c@ =~= initial_model());
        }
        c
    }

    /// Copies a ROM into memory starting at 0x200. A ROM longer than 3584
    /// bytes is rejected with `RomTooLarge` and the machine is left exactly
    /// as it was; otherwise every ROM byte lands at 0x200 plus its offset
    /// and all other state is untouched.
    pub fn load(&mut self, rom: &Vec<u8>) -> (r: Result<(), LoadError>)
        requires
            old(self)@.wf(),
        ensures
            final(self)@.wf(),
            rom@.len() > 3584 ==> r == Err::<(), LoadError>(LoadError::RomTooLarge)
                && final(self)@ == old(self)@,
            rom@.len() <= 3584 ==> r == Ok::<(), LoadError>(())
                && final(self)@ == (MachineModel {
                    memory: loaded_memory(old(self)@.memory, rom@),
                    ..old(self)@
                }),
    {
        if rom.len() > 3584 {
            return Err(LoadError::RomTooLarge);
        }
        let mut k: usize = 0;
        while k < rom.len()
            invariant
                old(self)@.wf(),
                rom@.len() <= 3584,
                k <= rom@.len(),
                self.memory@.len() == 4096,
                forall|j: int| 0 <= j < 4096 && !(512 <= j < 512 + k) ==> self.memory@[j]
                    == old(self)@.memory[j],
                forall|j: int| 512 <= j < 512 + k ==> self.memory@[j] == rom@[j - 512],
                self.v == old(self).v,
                self.i == old(self).i,
                self.pc == old(self).pc,
                self.stack == old(self).stack,
                self.sp == old(self).sp,
                self.delay_timer == old(self).delay_timer,
                self.sound_timer == old(self).sound_timer,
                self.gfx == old(self).gfx,
                self.key == old(self).key,
                self.draw_flag == old(self).draw_flag,
            decreases rom@.len() - k,
        {
            let b = rom[k];
            self.memory.set(512 + k, b);
            k = k + 1;
        }
        proof {
            assert(self@ =~= (MachineModel {
                memory: loaded_memory(old(self)@.memory, rom@),
                ..old(self)@
            }));
        }
        Ok(())
    }
}

} // verus!
