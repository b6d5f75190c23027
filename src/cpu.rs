use vstd::prelude::*;
use crate::input::{any_key_held, first_held_key};
use crate::machine::{Chip8, Chip8View};
use crate::memory::MemoryView;
use crate::output::{blank_display, collides, drawn};
use crate::sprites::{sprite_rows, Chip8Sprite};

verus! {

/// A place an instruction reads from, and for some of them writes to.
#[derive(Debug, Clone, Copy, PartialEq, Eq, Structural)]
pub enum CPUInstrTarget {
    IRegister,
    VRegister(usize),
    MemoryAddress(usize),
    Constant(u16),
    /// 1 when the key whose index is in the register is held, else 0.
    IsKeyInVRegPressed(usize),
    /// The first held key; reading it with no key held rewinds the program
    /// counter so that the instruction runs again.
    CurrentKeyPressed,
    CurrentDelayTimer,
    CurrentSoundTimer,
    /// The address of the font glyph for the digit in the register.
    SpriteAddress(usize),
    /// A random byte masked with the given bits.
    RandomNum(u8),
    True,
}

/// The arithmetic and logic operations; the flagged ones may set VF.
#[derive(Debug, Clone, Copy, PartialEq, Eq, Structural)]
pub enum ALUOperations {
    Assign,
    Add { update_vf: bool },
    Subtract { update_vf: bool },
    SubtractFlipped { update_vf: bool },
    Or,
    And,
    Xor,
    ShiftRight { update_vf: bool },
    ShiftLeft { update_vf: bool },
    Unknown,
}

/// A decoded instruction.
#[derive(Debug, Clone, Copy, PartialEq, Eq, Structural)]
pub enum CPUInstruction {
    CallMachineCode { addr: CPUInstrTarget },
    ClearDisplay,
    Return,
    Jump { addr: CPUInstrTarget },
    CallSubroutine { addr: CPUInstrTarget },
    CompareEq { eq: bool, left: CPUInstrTarget, right: CPUInstrTarget },
    Assignment { to: CPUInstrTarget, from: CPUInstrTarget },
    ALUOperation { op: ALUOperations, left: CPUInstrTarget, right: CPUInstrTarget },
    SpecialJump { offset: CPUInstrTarget },
    Draw { x_reg: CPUInstrTarget, y_reg: CPUInstrTarget, height_px: CPUInstrTarget },
    BCD { x_reg: CPUInstrTarget },
    RegisterDump { x: CPUInstrTarget },
    RegisterLoad { x: CPUInstrTarget },
    Unknown { opcode: u16 },
}

/// A fatal condition met by an instruction. Each carries the opcode that
/// met it (or, for a fetch outside memory, the program counter).
#[derive(Debug, Clone, Copy, PartialEq, Eq, Structural)]
pub enum Chip8Error {
    /// A call into machine code (0NNN other than 00E0 and 00EE): not emulated.
    MachineCodeCall { opcode: u16 },
    /// An opcode that matches no instruction.
    UnknownInstruction { opcode: u16 },
    /// An 8XYN opcode whose N selects no operation.
    UnknownAluOperation { opcode: u16 },
    /// A subroutine call with no room left on the stack.
    StackOverflow { opcode: u16 },
    /// A return with no return address on the stack.
    StackUnderflow { opcode: u16 },
    /// An instruction that would read or write past the end of memory.
    AddressOutOfRange { opcode: u16 },
    /// A key test whose register holds no key index (16 or more).
    KeyOutOfRange { opcode: u16 },
    /// The program counter leaves no whole opcode to fetch.
    PcOutOfRange { pc: u16 },
}

/// The instruction class: the top nibble.
pub open spec fn op_class(op: u16) -> u16 {
    (op & 0xF000) >> 12
}

/// The register field X: the second nibble.
pub open spec fn op_x(op: u16) -> u16 {
    (op & 0x0F00) >> 8
}

/// The register field Y: the third nibble.
pub open spec fn op_y(op: u16) -> u16 {
    (op & 0x00F0) >> 4
}

/// The field N: the low nibble.
pub open spec fn op_n(op: u16) -> u16 {
    op & 0x000F
}

/// The constant NN: the low byte.
pub open spec fn op_nn(op: u16) -> u16 {
    op & 0x00FF
}

/// The address NNN: the low twelve bits.
pub open spec fn op_nnn(op: u16) -> u16 {
    op & 0x0FFF
}

/// The operation that the N field of an 8XYN opcode selects.
pub open spec fn alu_op_of(n: u16) -> ALUOperations {
    if n == 0x0 {
        ALUOperations::Assign
    } else if n == 0x1 {
        ALUOperations::Or
    } else if n == 0x2 {
        ALUOperations::And
    } else if n == 0x3 {
        ALUOperations::Xor
    } else if n == 0x4 {
        ALUOperations::Add { update_vf: true }
    } else if n == 0x5 {
        ALUOperations::Subtract { update_vf: true }
    } else if n == 0x6 {
        ALUOperations::ShiftRight { update_vf: true }
    } else if n == 0x7 {
        ALUOperations::SubtractFlipped { update_vf: true }
    } else if n == 0xE {
        ALUOperations::ShiftLeft { update_vf: true }
    } else {
        ALUOperations::Unknown
    }
}

/// The instruction table: what each opcode decodes to.
pub open spec fn decode(op: u16) -> CPUInstruction {
    let class = op_class(op);
    let vx = CPUInstrTarget::VRegister(op_x(op) as usize);
    let vy = CPUInstrTarget::VRegister(op_y(op) as usize);
    let nn = CPUInstrTarget::Constant(op_nn(op));
    let nnn = CPUInstrTarget::Constant(op_nnn(op));
    if class == 0x0 {
        if op_nnn(op) == 0x0E0 {
            CPUInstruction::ClearDisplay
        } else if op_nnn(op) == 0x0EE {
            CPUInstruction::Return
        } else {
            CPUInstruction::CallMachineCode { addr: nnn }
        }
    } else if class == 0x1 {
        CPUInstruction::Jump { addr: nnn }
    } else if class == 0x2 {
        CPUInstruction::CallSubroutine { addr: nnn }
    } else if class == 0x3 || class == 0x4 {
        CPUInstruction::CompareEq { eq: class == 0x3, left: vx, right: nn }
    } else if (class == 0x5 || class == 0x9) && op_n(op) == 0 {
        CPUInstruction::CompareEq { eq: class == 0x5, left: vx, right: vy }
    } else if class == 0x6 {
        CPUInstruction::Assignment { to: vx, from: nn }
    } else if class == 0x7 {
        CPUInstruction::ALUOperation { op: ALUOperations::Add { update_vf: false }, left: vx, right: nn }
    } else if class == 0x8 {
        CPUInstruction::ALUOperation { op: alu_op_of(op_n(op)), left: vx, right: vy }
    } else if class == 0xA {
        CPUInstruction::Assignment { to: CPUInstrTarget::IRegister, from: nnn }
    } else if class == 0xB {
        CPUInstruction::SpecialJump { offset: nnn }
    } else if class == 0xC {
        CPUInstruction::Assignment { to: vx, from: CPUInstrTarget::RandomNum(op_nn(op) as u8) }
    } else if class == 0xD {
        CPUInstruction::Draw { x_reg: vx, y_reg: vy, height_px: CPUInstrTarget::Constant(op_n(op)) }
    } else if class == 0xE && (op_nn(op) == 0x9E || op_nn(op) == 0xA1) {
        CPUInstruction::CompareEq {
            eq: op_nn(op) == 0x9E,
            left: CPUInstrTarget::IsKeyInVRegPressed(op_x(op) as usize),
            right: CPUInstrTarget::True,
        }
    } else if class == 0xF && op_nn(op) == 0x07 {
        CPUInstruction::Assignment { to: vx, from: CPUInstrTarget::CurrentDelayTimer }
    } else if class == 0xF && op_nn(op) == 0x0A {
        CPUInstruction::Assignment { to: vx, from: CPUInstrTarget::CurrentKeyPressed }
    } else if class == 0xF && op_nn(op) == 0x15 {
        CPUInstruction::Assignment { to: CPUInstrTarget::CurrentDelayTimer, from: vx }
    } else if class == 0xF && op_nn(op) == 0x18 {
        CPUInstruction::Assignment { to: CPUInstrTarget::CurrentSoundTimer, from: vx }
    } else if class == 0xF && op_nn(op) == 0x1E {
        CPUInstruction::ALUOperation {
            op: ALUOperations::Add { update_vf: false },
            left: CPUInstrTarget::IRegister,
            right: vx,
        }
    } else if class == 0xF && op_nn(op) == 0x29 {
        CPUInstruction::Assignment {
            to: CPUInstrTarget::IRegister,
            from: CPUInstrTarget::SpriteAddress(op_x(op) as usize),
        }
    } else if class == 0xF && op_nn(op) == 0x33 {
        CPUInstruction::BCD { x_reg: vx }
    } else if class == 0xF && op_nn(op) == 0x55 {
        CPUInstruction::RegisterDump { x: CPUInstrTarget::Constant(op_x(op)) }
    } else if class == 0xF && op_nn(op) == 0x65 {
        CPUInstruction::RegisterLoad { x: CPUInstrTarget::Constant(op_x(op)) }
    } else {
        CPUInstruction::Unknown { opcode: op }
    }
}

/// The ranges of the opcode fields.
pub proof fn lemma_fields(op: u16)
    ensures
        op_class(op) < 16,
        op_x(op) < 16,
        op_y(op) < 16,
        op_n(op) < 16,
        op_nn(op) < 256,
        op_nnn(op) < 4096,
{
    assert((op & 0xF000) >> 12 < 16) by (bit_vector);
    assert((op & 0x0F00) >> 8 < 16) by (bit_vector);
    assert((op & 0x00F0) >> 4 < 16) by (bit_vector);
    assert(op & 0x000F < 16) by (bit_vector);
    assert(op & 0x00FF < 256) by (bit_vector);
    assert(op & 0x0FFF < 4096) by (bit_vector);
}

/// Whether a target can be read in state `s`: its register index and
/// address are in range, a key index read from a register names a key, and
/// a key read has an instruction to rewind to.
pub open spec fn readable(s: Chip8View, t: CPUInstrTarget) -> bool {
    match t {
        CPUInstrTarget::VRegister(r) => r < 16,
        CPUInstrTarget::SpriteAddress(r) => r < 16,
        CPUInstrTarget::MemoryAddress(a) => a < 4096,
        CPUInstrTarget::IsKeyInVRegPressed(r) => r < 16 && s.v[r as int] < 16,
        CPUInstrTarget::CurrentKeyPressed => s.pc >= 2,
        _ => true,
    }
}

/// Whether a target can be written: a register, a memory byte or a timer.
pub open spec fn writable(t: CPUInstrTarget) -> bool {
    match t {
        CPUInstrTarget::IRegister => true,
        CPUInstrTarget::VRegister(r) => r < 16,
        CPUInstrTarget::MemoryAddress(a) => a < 4096,
        CPUInstrTarget::CurrentDelayTimer => true,
        CPUInstrTarget::CurrentSoundTimer => true,
        _ => false,
    }
}

/// The value a target reads as in state `s`; `random` is the random byte
/// that a masked random read uses.
pub open spec fn eval_value(s: Chip8View, t: CPUInstrTarget, random: u8) -> u16 {
    match t {
        CPUInstrTarget::IRegister => s.i,
        CPUInstrTarget::VRegister(r) => s.v[r as int] as u16,
        CPUInstrTarget::MemoryAddress(a) => s.memory.bytes[a as int] as u16,
        CPUInstrTarget::Constant(c) => c,
        CPUInstrTarget::IsKeyInVRegPressed(r) => if s.keys[s.v[r as int] as int] {
            1
        } else {
            0
        },
        CPUInstrTarget::CurrentKeyPressed => match first_held_key(s.keys) {
            Some(k) => k as u16,
            None => 0,
        },
        CPUInstrTarget::CurrentDelayTimer => s.delay as u16,
        CPUInstrTarget::CurrentSoundTimer => s.sound as u16,
        CPUInstrTarget::SpriteAddress(r) => (s.v[r as int] * 5) as u16,
        CPUInstrTarget::RandomNum(mask) => (random & mask) as u16,
        CPUInstrTarget::True => 1,
    }
}

/// What reading a target does to the state: a key read with no key held
/// rewinds the program counter by one instruction; every other read
/// changes nothing.
pub open spec fn eval_effect(s: Chip8View, t: CPUInstrTarget) -> Chip8View {
    if t is CurrentKeyPressed && !any_key_held(s.keys) {
        Chip8View { pc: (s.pc - 2) as u16, ..s }
    } else {
        s
    }
}

/// The state after `val` is written to a target, truncated to its width.
pub open spec fn assign(s: Chip8View, t: CPUInstrTarget, val: int) -> Chip8View {
    match t {
        CPUInstrTarget::IRegister => Chip8View { i: (val % 65536) as u16, ..s },
        CPUInstrTarget::VRegister(r) => Chip8View { v: s.v.update(r as int, (val % 256) as u8), ..s },
        CPUInstrTarget::MemoryAddress(a) => Chip8View {
            memory: MemoryView {
                bytes: s.memory.bytes.update(a as int, (val % 256) as u8),
                ..s.memory
            },
            ..s
        },
        CPUInstrTarget::CurrentDelayTimer => Chip8View { delay: (val % 256) as u8, ..s },
        CPUInstrTarget::CurrentSoundTimer => Chip8View { sound: (val % 256) as u8, ..s },
        _ => s,
    }
}

/// Whether a target's register index or address is in range.
pub open spec fn in_range(t: CPUInstrTarget) -> bool {
    match t {
        CPUInstrTarget::VRegister(r) => r < 16,
        CPUInstrTarget::SpriteAddress(r) => r < 16,
        CPUInstrTarget::MemoryAddress(a) => a < 4096,
        CPUInstrTarget::IsKeyInVRegPressed(r) => r < 16,
        _ => true,
    }
}

/// A target in range that neither reads nor tests the keypad.
pub open spec fn plain(t: CPUInstrTarget) -> bool {
    in_range(t) && !(t is CurrentKeyPressed) && !(t is IsKeyInVRegPressed)
}

/// Whether an instruction's operands have the shapes the engine runs: the
/// keypad is tested only by a comparison and read only by an assignment,
/// written targets are writable, and sprite heights and register counts
/// are below 16. Every decoded instruction has them.
pub open spec fn instr_wf(instr: CPUInstruction) -> bool {
    match instr {
        CPUInstruction::Jump { addr } => plain(addr),
        CPUInstruction::CallSubroutine { addr } => plain(addr),
        CPUInstruction::CompareEq { left, right, .. } => in_range(left) && in_range(right)
            && !(left is CurrentKeyPressed) && !(right is CurrentKeyPressed),
        CPUInstruction::Assignment { to, from } => writable(to) && in_range(from)
            && !(from is IsKeyInVRegPressed),
        CPUInstruction::ALUOperation { left, right, .. } => writable(left) && plain(right),
        CPUInstruction::SpecialJump { offset } => plain(offset),
        CPUInstruction::Draw { x_reg, y_reg, height_px } => plain(x_reg) && plain(y_reg)
            && (height_px matches CPUInstrTarget::Constant(n) && n < 16),
        CPUInstruction::BCD { x_reg } => plain(x_reg),
        CPUInstruction::RegisterDump { x } => x matches CPUInstrTarget::Constant(n) && n < 16,
        CPUInstruction::RegisterLoad { x } => x matches CPUInstrTarget::Constant(n) && n < 16,
        _ => true,
    }
}

/// Whether a key test reads a register that holds no key index.
pub open spec fn bad_key(s: Chip8View, t: CPUInstrTarget) -> bool {
    t matches CPUInstrTarget::IsKeyInVRegPressed(r) && s.v[r as int] >= 16
}

/// The fatal condition, if any, that running `instr` (decoded from
/// `opcode`) in state `s` meets. Each is found before anything changes.
pub open spec fn fault(s: Chip8View, instr: CPUInstruction, opcode: u16) -> Option<Chip8Error> {
    match instr {
        CPUInstruction::CallMachineCode { .. } => Some(Chip8Error::MachineCodeCall { opcode }),
        CPUInstruction::Unknown { .. } => Some(Chip8Error::UnknownInstruction { opcode }),
        CPUInstruction::ALUOperation { op, .. } => if op is Unknown {
            Some(Chip8Error::UnknownAluOperation { opcode })
        } else {
            None
        },
        CPUInstruction::Return => if s.memory.holds(2) {
            None
        } else {
            Some(Chip8Error::StackUnderflow { opcode })
        },
        CPUInstruction::CallSubroutine { .. } => if s.memory.has_room(2) {
            None
        } else {
            Some(Chip8Error::StackOverflow { opcode })
        },
        CPUInstruction::CompareEq { left, right, .. } => if bad_key(s, left) || bad_key(s, right) {
            Some(Chip8Error::KeyOutOfRange { opcode })
        } else {
            None
        },
        CPUInstruction::Draw { height_px, .. } => if s.i + eval_value(s, height_px, 0) <= 4096 {
            None
        } else {
            Some(Chip8Error::AddressOutOfRange { opcode })
        },
        CPUInstruction::BCD { .. } => if s.i + 3 <= 4096 {
            None
        } else {
            Some(Chip8Error::AddressOutOfRange { opcode })
        },
        CPUInstruction::RegisterDump { x } => if s.i + eval_value(s, x, 0) + 1 <= 4096 {
            None
        } else {
            Some(Chip8Error::AddressOutOfRange { opcode })
        },
        CPUInstruction::RegisterLoad { x } => if s.i + eval_value(s, x, 0) + 1 <= 4096 {
            None
        } else {
            Some(Chip8Error::AddressOutOfRange { opcode })
        },
        _ => None,
    }
}

/// Adds 256 to a negative value until it is not negative.
pub open spec fn rewrap(v: int) -> int
    decreases (if v < 0 {
        -v
    } else {
        0
    }),
{
    if v < 0 {
        rewrap(v + 256)
    } else {
        v
    }
}

/// The result of an operation on the operand values, before it is wrapped.
pub open spec fn alu_raw(op: ALUOperations, l: u16, r: u16) -> int {
    match op {
        ALUOperations::Assign => r as int,
        ALUOperations::Add { .. } => l + r,
        ALUOperations::Subtract { .. } => l - r,
        ALUOperations::SubtractFlipped { .. } => r - l,
        ALUOperations::Or => (l | r) as int,
        ALUOperations::And => (l & r) as int,
        ALUOperations::Xor => (l ^ r) as int,
        ALUOperations::ShiftRight { .. } => (l >> 1u16) as int,
        ALUOperations::ShiftLeft { .. } => l * 2,
        ALUOperations::Unknown => 0,
    }
}

/// The value VF takes after a flagged operation, `None` when VF is left
/// alone: carry for an addition, no borrow for a subtraction, and the bit
/// shifted out for a shift.
pub open spec fn alu_flag(op: ALUOperations, l: u16, r: u16) -> Option<bool> {
    match op {
        ALUOperations::Add { update_vf } => if update_vf {
            Some(l + r > 255)
        } else {
            None
        },
        ALUOperations::Subtract { update_vf } => if update_vf {
            Some(l >= r)
        } else {
            None
        },
        ALUOperations::SubtractFlipped { update_vf } => if update_vf {
            Some(r >= l)
        } else {
            None
        },
        ALUOperations::ShiftRight { update_vf } => if update_vf {
            Some(l & 1 == 1)
        } else {
            None
        },
        ALUOperations::ShiftLeft { update_vf } => if update_vf {
            Some(l & 0x80 > 0)
        } else {
            None
        },
        _ => None,
    }
}

/// The state with VF set to 1 or 0.
pub open spec fn with_flag(s: Chip8View, f: bool) -> Chip8View {
    Chip8View { v: s.v.update(15, if f { 1u8 } else { 0u8 }), ..s }
}

/// An operation on `left` and `right`, its wrapped result written to
/// `left`, then VF set when the operation is flagged.
pub open spec fn alu_exec(
    s: Chip8View,
    op: ALUOperations,
    left: CPUInstrTarget,
    right: CPUInstrTarget,
    random: u8,
) -> Chip8View {
    let l = eval_value(s, left, random);
    let r = eval_value(s, right, random);
    let s1 = assign(s, left, rewrap(alu_raw(op, l, r)));
    match alu_flag(op, l, r) {
        Some(f) => with_flag(s1, f),
        None => s1,
    }
}

/// The `n` sprite bytes at I, composited at (x, y), with VF set to the
/// collision flag.
pub open spec fn draw_exec(s: Chip8View, x: int, y: int, n: int) -> Chip8View {
    let sprite = sprite_rows(s.memory.bytes.subrange(s.i as int, s.i + n));
    with_flag(
        Chip8View { display: drawn(s.display, sprite, x, y), ..s },
        collides(s.display, sprite, x, y),
    )
}

/// The hundreds, tens and ones digits of `val` stored at I, I+1 and I+2.
pub open spec fn bcd_exec(s: Chip8View, val: int) -> Chip8View {
    let i = s.i as int;
    Chip8View {
        memory: MemoryView {
            bytes: s.memory.bytes.update(i, ((val / 100) % 10) as u8).update(
                i + 1,
                ((val / 10) % 10) as u8,
            ).update(i + 2, (val % 10) as u8),
            ..s.memory
        },
        ..s
    }
}

/// V0..Vn stored at I..I+n.
pub open spec fn dump_exec(s: Chip8View, n: int) -> Chip8View {
    let i = s.i as int;
    Chip8View {
        memory: MemoryView {
            bytes: Seq::new(
                s.memory.bytes.len(),
                |a: int|
                    if i <= a <= i + n {
                        s.v[a - i]
                    } else {
                        s.memory.bytes[a]
                    },
            ),
            ..s.memory
        },
        ..s
    }
}

/// V0..Vn loaded from I..I+n.
pub open spec fn load_exec(s: Chip8View, n: int) -> Chip8View {
    let i = s.i as int;
    Chip8View {
        v: Seq::new(
            s.v.len(),
            |k: int|
                if k <= n {
                    s.memory.bytes[i + k]
                } else {
                    s.v[k]
                },
        ),
        ..s
    }
}

/// What an instruction that meets no fault does, in a state whose program
/// counter has already moved past it. `random` is the random byte that a
/// masked random read uses.
pub open spec fn exec_spec(s: Chip8View, instr: CPUInstruction, random: u8) -> Chip8View {
    match instr {
        CPUInstruction::ClearDisplay => Chip8View { display: blank_display(), ..s },
        CPUInstruction::Return => Chip8View {
            memory: s.memory.pop_u16().0,
            pc: s.memory.pop_u16().1,
            ..s
        },
        CPUInstruction::Jump { addr } => Chip8View { pc: eval_value(s, addr, random), ..s },
        CPUInstruction::CallSubroutine { addr } => {
            let pushed = Chip8View { memory: s.memory.push_u16(s.pc), ..s };
            Chip8View { pc: eval_value(pushed, addr, random), ..pushed }
        },
        CPUInstruction::CompareEq { eq, left, right } => if (eval_value(s, left, random)
            == eval_value(s, right, random)) == eq {
            Chip8View { pc: (s.pc + 2) as u16, ..s }
        } else {
            s
        },
        CPUInstruction::Assignment { to, from } => assign(
            eval_effect(s, from),
            to,
            eval_value(s, from, random) as int,
        ),
        CPUInstruction::ALUOperation { op, left, right } => alu_exec(s, op, left, right, random),
        CPUInstruction::SpecialJump { offset } => Chip8View {
            pc: ((s.v[0] + eval_value(s, offset, random)) % 65536) as u16,
            ..s
        },
        CPUInstruction::Draw { x_reg, y_reg, height_px } => draw_exec(
            s,
            eval_value(s, x_reg, random) as int,
            eval_value(s, y_reg, random) as int,
            eval_value(s, height_px, random) as int,
        ),
        CPUInstruction::BCD { x_reg } => bcd_exec(s, eval_value(s, x_reg, random) as int),
        CPUInstruction::RegisterDump { x } => dump_exec(s, eval_value(s, x, random) as int),
        CPUInstruction::RegisterLoad { x } => load_exec(s, eval_value(s, x, random) as int),
        _ => s,
    }
}

/// The state with the program counter moved past the current instruction.
pub open spec fn advance(s: Chip8View) -> Chip8View {
    Chip8View { pc: (s.pc + 2) as u16, ..s }
}

/// Running a decoded instruction: a fault leaves the state as it was;
/// otherwise the program counter moves past the instruction, which then
/// runs.
pub open spec fn run_instr(s: Chip8View, instr: CPUInstruction, opcode: u16, random: u8) -> (
    Chip8View,
    Result<(), Chip8Error>,
) {
    match fault(s, instr, opcode) {
        Some(e) => (s, Err(e)),
        None => (exec_spec(advance(s), instr, random), Ok(())),
    }
}

/// The opcode at the program counter, high byte first.
pub open spec fn fetch(s: Chip8View) -> u16 {
    crate::memory::word(s.memory.bytes[s.pc as int], s.memory.bytes[s.pc + 1])
}

/// One step: fetch the opcode at the program counter, decode it and run
/// it. A program counter with no whole opcode before the end of memory is
/// fatal.
pub open spec fn step_spec(s: Chip8View, random: u8) -> (Chip8View, Result<(), Chip8Error>) {
    if s.pc + 1 >= 4096 {
        (s, Err(Chip8Error::PcOutOfRange { pc: s.pc }))
    } else {
        run_instr(s, decode(fetch(s)), fetch(s), random)
    }
}

/// Every decoded instruction has operands of the shapes the engine runs.
pub proof fn lemma_decode_wf(op: u16)
    ensures
        instr_wf(decode(op)),
{
    lemma_fields(op);
}

impl Chip8 {
    /// Decodes an opcode; every opcode decodes, those of no instruction to
    /// `Unknown`.
    pub fn opcode_to_instruction(opcode: u16) -> (r: CPUInstruction)
        ensures
            r == decode(opcode),
    {
        proof {
            lemma_fields(opcode);
        }
        let class = (opcode & 0xF000) >> 12;
        let x = ((opcode & 0x0F00) >> 8) as usize;
        let y = ((opcode & 0x00F0) >> 4) as usize;
        let n = opcode & 0x000F;
        let nn = opcode & 0x00FF;
        let nnn = opcode & 0x0FFF;
        let vx = CPUInstrTarget::VRegister(x);
        let vy = CPUInstrTarget::VRegister(y);
        match class {
            0x0 => {
                if nnn == 0x0E0 {
                    CPUInstruction::ClearDisplay
                } else if nnn == 0x0EE {
                    CPUInstruction::Return
                } else {
                    CPUInstruction::CallMachineCode { addr: CPUInstrTarget::Constant(nnn) }
                }
            },
            0x1 => CPUInstruction::Jump { addr: CPUInstrTarget::Constant(nnn) },
            0x2 => CPUInstruction::CallSubroutine { addr: CPUInstrTarget::Constant(nnn) },
            0x3 | 0x4 => CPUInstruction::CompareEq {
                eq: class == 0x3,
                left: vx,
                right: CPUInstrTarget::Constant(nn),
            },
            0x5 | 0x9 => {
                if n == 0 {
                    CPUInstruction::CompareEq { eq: class == 0x5, left: vx, right: vy }
                } else {
                    CPUInstruction::Unknown { opcode }
                }
            },
            0x6 => CPUInstruction::Assignment { to: vx, from: CPUInstrTarget::Constant(nn) },
            0x7 => CPUInstruction::ALUOperation {
                op: ALUOperations::Add { update_vf: false },
                left: vx,
                right: CPUInstrTarget::Constant(nn),
            },
            0x8 => {
                let op = match n {
                    0x0 => ALUOperations::Assign,
                    0x1 => ALUOperations::Or,
                    0x2 => ALUOperations::And,
                    0x3 => ALUOperations::Xor,
                    0x4 => ALUOperations::Add { update_vf: true },
                    0x5 => ALUOperations::Subtract { update_vf: true },
                    0x6 => ALUOperations::ShiftRight { update_vf: true },
                    0x7 => ALUOperations::SubtractFlipped { update_vf: true },
                    0xE => ALUOperations::ShiftLeft { update_vf: true },
                    _ => ALUOperations::Unknown,
                };
                CPUInstruction::ALUOperation { op, left: vx, right: vy }
            },
            0xA => CPUInstruction::Assignment {
                to: CPUInstrTarget::IRegister,
                from: CPUInstrTarget::Constant(nnn),
            },
            0xB => CPUInstruction::SpecialJump { offset: CPUInstrTarget::Constant(nnn) },
            0xC => CPUInstruction::Assignment { to: vx, from: CPUInstrTarget::RandomNum(nn as u8) },
            0xD => CPUInstruction::Draw {
                x_reg: vx,
                y_reg: vy,
                height_px: CPUInstrTarget::Constant(n),
            },
            0xE => {
                if nn == 0x9E || nn == 0xA1 {
                    CPUInstruction::CompareEq {
                        eq: nn == 0x9E,
                        left: CPUInstrTarget::IsKeyInVRegPressed(x),
                        right: CPUInstrTarget::True,
                    }
                } else {
                    CPUInstruction::Unknown { opcode }
                }
            },
            0xF => match nn {
                0x07 => CPUInstruction::Assignment { to: vx, from: CPUInstrTarget::CurrentDelayTimer },
                0x0A => CPUInstruction::Assignment { to: vx, from: CPUInstrTarget::CurrentKeyPressed },
                0x15 => CPUInstruction::Assignment { to: CPUInstrTarget::CurrentDelayTimer, from: vx },
                0x18 => CPUInstruction::Assignment { to: CPUInstrTarget::CurrentSoundTimer, from: vx },
                0x1E => CPUInstruction::ALUOperation {
                    op: ALUOperations::Add { update_vf: false },
                    left: CPUInstrTarget::IRegister,
                    right: vx,
                },
                0x29 => CPUInstruction::Assignment {
                    to: CPUInstrTarget::IRegister,
                    from: CPUInstrTarget::SpriteAddress(x),
                },
                0x33 => CPUInstruction::BCD { x_reg: vx },
                0x55 => CPUInstruction::RegisterDump { x: CPUInstrTarget::Constant(x as u16) },
                0x65 => CPUInstruction::RegisterLoad { x: CPUInstrTarget::Constant(x as u16) },
                _ => CPUInstruction::Unknown { opcode },
            },
            _ => CPUInstruction::Unknown { opcode },
        }
    }
    /// Reads a target. `random` is the random byte that a masked random read
    /// uses. A key read with no key held yields 0 and rewinds the program
    /// counter by two, so that the instruction runs again.
    pub fn evaluate_cpu_instr_target(&mut self, target: &CPUInstrTarget, random: u8) -> (r: usize)
        requires
            readable(old(self)@, *target),
        ensures
            r == eval_value(old(self)@, *target, random),
            final(self)@ == eval_effect(old(self)@, *target),
    {
        match target {
            CPUInstrTarget::IRegister => self.registers.i as usize,
            CPUInstrTarget::VRegister(reg) => self.registers.v[*reg] as usize,
            CPUInstrTarget::MemoryAddress(addr) => self.memory.mem[*addr] as usize,
            CPUInstrTarget::Constant(val) => *val as usize,
            CPUInstrTarget::CurrentKeyPressed => {
                match self.input.get_current_key() {
                    Some(key) => key,
                    None => {
                        self.registers.pc = self.registers.pc - 2;
                        0
                    },
                }
            },
            CPUInstrTarget::IsKeyInVRegPressed(reg) => {
                let key = self.registers.v[*reg] as usize;
                if self.input.keys_status[key] {
                    1
                } else {
                    0
                }
            },
            CPUInstrTarget::CurrentDelayTimer => self.timers.delay as usize,
            CPUInstrTarget::CurrentSoundTimer => self.timers.sound as usize,
            CPUInstrTarget::SpriteAddress(reg) => self.registers.v[*reg] as usize * 5,
            CPUInstrTarget::RandomNum(mask) => (random & *mask) as usize,
            CPUInstrTarget::True => 1,
        }
    }

    /// Writes `val` to a target, truncated to the target's width.
    pub fn set_cpu_instr_target(&mut self, target: CPUInstrTarget, val: usize)
        requires
            writable(target),
        ensures
            final(self)@ == assign(old(self)@, target, val as int),
    {
        match target {
            CPUInstrTarget::IRegister => self.registers.i = (val % 65536) as u16,
            CPUInstrTarget::VRegister(reg) => self.registers.v[reg] = (val % 256) as u8,
            CPUInstrTarget::MemoryAddress(addr) => self.memory.mem[addr] = (val % 256) as u8,
            CPUInstrTarget::CurrentDelayTimer => self.timers.delay = (val % 256) as u8,
            CPUInstrTarget::CurrentSoundTimer => self.timers.sound = (val % 256) as u8,
            _ => {},
        }
    }
    /// The fault, if any, that running `instr` (decoded from `opcode`) meets.
    fn check_fault(&self, instr: &CPUInstruction, opcode: u16) -> (r: Option<Chip8Error>)
        requires
            instr_wf(*instr),
        ensures
            r == fault(self@, *instr, opcode),
    {
        let i = self.registers.i as usize;
        match instr {
            CPUInstruction::CallMachineCode { .. } => Some(Chip8Error::MachineCodeCall { opcode }),
            CPUInstruction::Unknown { .. } => Some(Chip8Error::UnknownInstruction { opcode }),
            CPUInstruction::ALUOperation { op, .. } => match op {
                ALUOperations::Unknown => Some(Chip8Error::UnknownAluOperation { opcode }),
                _ => None,
            },
            CPUInstruction::Return => {
                let sp = self.memory.stack_ptr;
                if sp < crate::memory::STACK_LIMIT - 1 || sp > crate::memory::STACK_TOP - 2 {
                    Some(Chip8Error::StackUnderflow { opcode })
                } else {
                    None
                }
            },
            CPUInstruction::CallSubroutine { .. } => {
                let sp = self.memory.stack_ptr;
                if sp < crate::memory::STACK_LIMIT + 1 || sp > crate::memory::STACK_TOP {
                    Some(Chip8Error::StackOverflow { opcode })
                } else {
                    None
                }
            },
            CPUInstruction::CompareEq { left, right, .. } => {
                if self.is_bad_key(left) || self.is_bad_key(right) {
                    Some(Chip8Error::KeyOutOfRange { opcode })
                } else {
                    None
                }
            },
            CPUInstruction::Draw { height_px, .. } => {
                let n: usize = match height_px {
                    CPUInstrTarget::Constant(n) => *n as usize,
                    _ => 0,
                };
                if i + n <= 4096 {
                    None
                } else {
                    Some(Chip8Error::AddressOutOfRange { opcode })
                }
            },
            CPUInstruction::BCD { .. } => {
                if i + 3 <= 4096 {
                    None
                } else {
                    Some(Chip8Error::AddressOutOfRange { opcode })
                }
            },
            CPUInstruction::RegisterDump { x } | CPUInstruction::RegisterLoad { x } => {
                let n: usize = match x {
                    CPUInstrTarget::Constant(n) => *n as usize,
                    _ => 0,
                };
                if i + n + 1 <= 4096 {
                    None
                } else {
                    Some(Chip8Error::AddressOutOfRange { opcode })
                }
            },
            _ => None,
        }
    }

    /// Whether `t` tests a key whose index, read from a register, names no key.
    fn is_bad_key(&self, t: &CPUInstrTarget) -> (r: bool)
        requires
            in_range(*t),
        ensures
            r == bad_key(self@, *t),
    {
        match t {
            CPUInstrTarget::IsKeyInVRegPressed(reg) => self.registers.v[*reg] >= 16,
            _ => false,
        }
    }

    /// Runs an operation other than `Unknown`: the result, wrapped into
    /// range, goes to `left`, then VF is set when the operation is flagged.
    fn execute_alu(&mut self, op: ALUOperations, left: CPUInstrTarget, right: CPUInstrTarget, random: u8)
        requires
            writable(left),
            plain(right),
            !(op is Unknown),
        ensures
            final(self)@ == alu_exec(old(self)@, op, left, right, random),
    {
        let l = self.evaluate_cpu_instr_target(&left, random) as u16;
        let r = self.evaluate_cpu_instr_target(&right, random) as u16;
        let (raw, flag): (i64, Option<bool>) = match op {
            ALUOperations::Assign => (r as i64, None),
            ALUOperations::Add { update_vf } => (
                l as i64 + r as i64,
                if update_vf {
                    Some(l as i64 + r as i64 > 255)
                } else {
                    None
                },
            ),
            ALUOperations::Subtract { update_vf } => (
                l as i64 - r as i64,
                if update_vf {
                    Some(l >= r)
                } else {
                    None
                },
            ),
            ALUOperations::SubtractFlipped { update_vf } => (
                r as i64 - l as i64,
                if update_vf {
                    Some(r >= l)
                } else {
                    None
                },
            ),
            ALUOperations::Or => ((l | r) as i64, None),
            ALUOperations::And => ((l & r) as i64, None),
            ALUOperations::Xor => ((l ^ r) as i64, None),
            ALUOperations::ShiftRight { update_vf } => (
                (l >> 1u16) as i64,
                if update_vf {
                    Some(l & 1 == 1)
                } else {
                    None
                },
            ),
            ALUOperations::ShiftLeft { update_vf } => (
                l as i64 * 2,
                if update_vf {
                    Some(l & 0x80 > 0)
                } else {
                    None
                },
            ),
            ALUOperations::Unknown => (0, None),
        };
        assert(raw == alu_raw(op, l, r));
        assert(flag == alu_flag(op, l, r));
        let mut result = raw;
        while result < 0
            invariant
                rewrap(result as int) == rewrap(raw as int),
                raw <= result < 65536 * 2,
            decreases 65536 * 2 - result,
        {
            result = result + 256;
        }
        self.set_cpu_instr_target(left, result as usize);
        match flag {
            Some(f) => {
                self.registers.v[15] = if f {
                    1
                } else {
                    0
                };
            },
            None => {},
        }
    }

    /// Composites the `n` sprite bytes at I at (`x`, `y`) and sets VF to
    /// the collision flag.
    fn execute_draw(&mut self, x: usize, y: usize, n: usize)
        requires
            n < 16,
            old(self)@.i + n <= 4096,
        ensures
            final(self)@ == draw_exec(old(self)@, x as int, y as int, n as int),
    {
        let i = self.registers.i as usize;
        let sprite = Chip8Sprite::new(&self.memory, i, n);
        let collided = self.output.draw_sprite_on_display(x, y, sprite);
        self.registers.v[15] = if collided {
            1
        } else {
            0
        };
    }

    /// Stores the decimal digits of `val` at I, I+1 and I+2.
    fn execute_bcd(&mut self, val: usize)
        requires
            old(self)@.i + 3 <= 4096,
        ensures
            final(self)@ == bcd_exec(old(self)@, val as int),
    {
        let i = self.registers.i as usize;
        self.memory.mem[i] = ((val / 100) % 10) as u8;
        self.memory.mem[i + 1] = ((val / 10) % 10) as u8;
        self.memory.mem[i + 2] = (val % 10) as u8;
    }

    /// Stores V0..Vn at I..I+n.
    fn execute_dump(&mut self, n: usize)
        requires
            n < 16,
            old(self)@.i + n + 1 <= 4096,
        ensures
            final(self)@ == dump_exec(old(self)@, n as int),
    {
        let i = self.registers.i as usize;
        let mut k: usize = 0;
        while k <= n
            invariant
                n < 16,
                i == old(self)@.i,
                i + n + 1 <= 4096,
                k <= n + 1,
                self@ == dump_exec(old(self)@, k - 1),
            decreases n + 1 - k,
        {
            self.memory.mem[i + k] = self.registers.v[k];
            assert(self@.memory.bytes =~= dump_exec(old(self)@, k as int).memory.bytes);
            k = k + 1;
        }
    }

    /// Loads V0..Vn from I..I+n.
    fn execute_load(&mut self, n: usize)
        requires
            n < 16,
            old(self)@.i + n + 1 <= 4096,
        ensures
            final(self)@ == load_exec(old(self)@, n as int),
    {
        let i = self.registers.i as usize;
        let mut k: usize = 0;
        while k <= n
            invariant
                n < 16,
                i == old(self)@.i,
                i + n + 1 <= 4096,
                k <= n + 1,
                self@ == load_exec(old(self)@, k - 1),
            decreases n + 1 - k,
        {
            self.registers.v[k] = self.memory.mem[i + k];
            assert(self@.v =~= load_exec(old(self)@, k as int).v);
            k = k + 1;
        }
    }

    /// Runs a decoded instruction: a fault is returned with the state left
    /// as it was; otherwise the program counter moves past the instruction,
    /// which then runs.
    fn execute_instruction(&mut self, instr: CPUInstruction, opcode: u16, random: u8) -> (r: Result<(), Chip8Error>)
        requires
            instr_wf(instr),
            old(self)@.pc + 1 < 4096,
        ensures
            (final(self)@, r) == run_instr(old(self)@, instr, opcode, random),
    {
        match self.check_fault(&instr, opcode) {
            Some(e) => {
                return Err(e);
            },
            None => {},
        }
        self.registers.pc = self.registers.pc + 2;
        match instr {
            CPUInstruction::ClearDisplay => self.output.clear_display(),
            CPUInstruction::Return => {
                match self.memory.pop_from_stack_u16() {
                    Ok(addr) => self.registers.pc = addr,
                    Err(_) => {},
                }
            },
            CPUInstruction::Jump { addr } => {
                let addr = self.evaluate_cpu_instr_target(&addr, random);
                self.registers.pc = addr as u16;
            },
            CPUInstruction::CallSubroutine { addr } => {
                let current_pc = self.registers.pc;
                let _ = self.memory.push_to_stack_u16(current_pc);
                let jump_addr = self.evaluate_cpu_instr_target(&addr, random);
                self.registers.pc = jump_addr as u16;
            },
            CPUInstruction::CompareEq { eq, left, right } => {
                let left_val = self.evaluate_cpu_instr_target(&left, random);
                let right_val = self.evaluate_cpu_instr_target(&right, random);
                if (left_val == right_val) == eq {
                    self.registers.pc = self.registers.pc + 2;
                }
            },
            CPUInstruction::Assignment { to, from } => {
                let from_val = self.evaluate_cpu_instr_target(&from, random);
                self.set_cpu_instr_target(to, from_val);
            },
            CPUInstruction::ALUOperation { op, left, right } => {
                self.execute_alu(op, left, right, random);
            },
            CPUInstruction::SpecialJump { offset } => {
                let v0_val = self.registers.v[0] as usize;
                let offset_val = self.evaluate_cpu_instr_target(&offset, random);
                self.registers.pc = ((v0_val + offset_val) % 65536) as u16;
            },
            CPUInstruction::Draw { x_reg, y_reg, height_px } => {
                let x = self.evaluate_cpu_instr_target(&x_reg, random);
                let y = self.evaluate_cpu_instr_target(&y_reg, random);
                let n = self.evaluate_cpu_instr_target(&height_px, random);
                self.execute_draw(x, y, n);
            },
            CPUInstruction::BCD { x_reg } => {
                let val = self.evaluate_cpu_instr_target(&x_reg, random);
                self.execute_bcd(val);
            },
            CPUInstruction::RegisterDump { x } => {
                let n = self.evaluate_cpu_instr_target(&x, random);
                self.execute_dump(n);
            },
            CPUInstruction::RegisterLoad { x } => {
                let n = self.evaluate_cpu_instr_target(&x, random);
                self.execute_load(n);
            },
            CPUInstruction::CallMachineCode { .. } => {},
            CPUInstruction::Unknown { .. } => {},
        }
        Ok(())
    }

    /// One step with the given random byte (used only by a masked random
    /// read): fetch the opcode at the program counter, decode it and run
    /// it.
    pub fn step(&mut self, random: u8) -> (r: Result<(), Chip8Error>)
        ensures
            (final(self)@, r) == step_spec(old(self)@, random),
    {
        let pc = self.registers.pc as usize;
        if pc + 1 >= crate::memory::MEMORY_SIZE {
            return Err(Chip8Error::PcOutOfRange { pc: self.registers.pc });
        }
        let opcode = self.memory.get_memory_at_u16(pc);
        let instr = Chip8::opcode_to_instruction(opcode);
        proof {
            lemma_decode_wf(opcode);
        }
        self.execute_instruction(instr, opcode, random)
    }

    /// One step, with a random byte drawn for a masked random read: the
    /// outcome is that of `step` for some byte.
    pub fn execute_next_instruction(&mut self) -> (r: Result<(), Chip8Error>)
        ensures
            exists|random: u8| (final(self)@, r) == step_spec(old(self)@, random),
    {
        let random = random_byte();
        self.step(random)
    }
}

/// Relies on rand::random::<u8>: a byte drawn from the thread-local
/// generator. Nothing is known of its value.
#[verifier::external_body]
fn random_byte() -> (r: u8) {
    rand::random::<u8>()
}

} // verus!
