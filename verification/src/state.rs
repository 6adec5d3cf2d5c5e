//! Mathematical model of the interpreter: an abstract machine state and a
//! transition function for every instruction of the opcode set.
//!
//! The concrete interpreter in `cpu` is proved to follow these transitions.
//! Out-of-range accesses that canonical CHIP-8 leaves undefined are given a
//! deterministic policy here, stated once and proved everywhere:
//! memory addresses wrap modulo 4096, the program counter wraps modulo
//! 65536, a call with a full stack and a return with an empty stack leave
//! the state unchanged, and a key index is reduced to its low four bits.

use vstd::prelude::*;

verus! {

/// Abstract state of the interpreter: one field per architectural resource.
pub ghost struct Machine {
    /// 16 general-purpose 8-bit registers; register 15 doubles as the
    /// carry / borrow / collision flag.
    pub registers: Seq<u8>,
    /// 4096 bytes of addressable memory.
    pub memory: Seq<u8>,
    /// 16 key slots; a slot is pressed exactly when it is nonzero.
    pub keypad: Seq<u16>,
    /// Memory pointer used by the index-relative instructions.
    pub index: u16,
    /// Program counter.
    pub pc: u16,
    /// 16 return-address slots.
    pub stack: Seq<u16>,
    /// Stack pointer: number of occupied stack slots.
    pub sp: u8,
    /// Delay timer, decremented by the external timer tick.
    pub delay_timer: u8,
    /// Sound timer, decremented by the external timer tick.
    pub sound_timer: u8,
    /// 64x32 framebuffer in row-major order; a pixel is either 0 (off) or
    /// 0xFFFF_FFFF (on).
    pub video: Seq<u32>,
    /// The instruction word fetched by the current cycle.
    pub opcode: u16,
}

/// The sizes every reachable machine state has.
pub open spec fn wf(s: Machine) -> bool {
    &&& s.registers.len() == 16
    &&& s.memory.len() == 4096
    &&& s.keypad.len() == 16
    &&& s.stack.len() == 16
    &&& s.video.len() == 2048
}

/// Value of an on pixel; the only other valid pixel value is 0.
pub open spec fn pixel_on() -> u32 {
    0xFFFF_FFFFu32
}

// ---------------------------------------------------------------------------
// Operand extraction from a 16-bit opcode.
// ---------------------------------------------------------------------------

/// Bits 8..12: the first register operand.
pub open spec fn x_of(op: u16) -> int {
    ((op >> 8) & 0xF) as int
}

/// Bits 4..8: the second register operand.
pub open spec fn y_of(op: u16) -> int {
    ((op >> 4) & 0xF) as int
}

/// Bits 0..4: the short immediate (sprite height).
pub open spec fn n_of(op: u16) -> int {
    (op & 0xF) as int
}

/// Bits 0..8: the byte immediate.
pub open spec fn kk_of(op: u16) -> u8 {
    (op & 0xFF) as u8
}

/// Bits 0..12: the address immediate.
pub open spec fn nnn_of(op: u16) -> u16 {
    op & 0xFFF
}

/// The leading nibble, which selects the instruction class.
pub open spec fn class_of(op: u16) -> u16 {
    op >> 12
}

/// The operand fields always lie in the ranges their widths allow.
pub proof fn lemma_operand_bounds(op: u16)
    ensures
        0 <= x_of(op) < 16,
        0 <= y_of(op) < 16,
        0 <= n_of(op) < 16,
        nnn_of(op) < 4096,
        class_of(op) < 16,
{
    assert((op >> 8) & 0xF < 16) by (bit_vector);
    assert((op >> 4) & 0xF < 16) by (bit_vector);
    assert(op & 0xF < 16) by (bit_vector);
    assert(op & 0xFFF < 4096) by (bit_vector);
    assert(op >> 12 < 16) by (bit_vector);
}

// ---------------------------------------------------------------------------
// Address arithmetic policy.
// ---------------------------------------------------------------------------

/// The program counter wraps modulo 2^16. The argument is always within
/// one wrap of the representable range, so one correction suffices.
pub open spec fn wrap16(v: int) -> u16 {
    if v < 0 {
        (v + 0x10000) as u16
    } else if v > 0xFFFF {
        (v - 0x10000) as u16
    } else {
        v as u16
    }
}

/// Memory addresses wrap modulo the 4096-byte memory size.
pub open spec fn maddr(a: int) -> int {
    a % 4096
}

// ---------------------------------------------------------------------------
// Instruction transitions. Each takes the state after fetch (opcode set,
// program counter already advanced by 2) and yields the state after the
// instruction.
// ---------------------------------------------------------------------------

/// Clear screen: every pixel off.
pub open spec fn op_cls(s: Machine) -> Machine {
    Machine { video: Seq::new(2048, |i: int| 0u32), ..s }
}

/// Return from subroutine: pop the stack into the program counter.
/// With an empty stack the instruction does nothing.
pub open spec fn op_ret(s: Machine) -> Machine {
    if s.sp == 0 || s.sp > 16 {
        s
    } else {
        Machine { sp: (s.sp - 1) as u8, pc: s.stack[s.sp - 1], ..s }
    }
}

/// Jump: the program counter becomes the address immediate.
pub open spec fn op_jump(s: Machine) -> Machine {
    Machine { pc: nnn_of(s.opcode), ..s }
}

/// Call: push the program counter, then jump. With a full stack the
/// instruction does nothing.
pub open spec fn op_call(s: Machine) -> Machine {
    if s.sp < 16 {
        Machine {
            stack: s.stack.update(s.sp as int, s.pc),
            sp: (s.sp + 1) as u8,
            pc: nnn_of(s.opcode),
            ..s
        }
    } else {
        s
    }
}

/// Advance the program counter by one further instruction: the skip that
/// the conditional instructions perform.
pub open spec fn skipped(s: Machine) -> Machine {
    Machine { pc: wrap16(s.pc + 2), ..s }
}

/// Skip if the register equals the byte immediate.
pub open spec fn op_se_byte(s: Machine) -> Machine {
    if s.registers[x_of(s.opcode)] == kk_of(s.opcode) {
        skipped(s)
    } else {
        s
    }
}

/// Skip if the register differs from the byte immediate.
pub open spec fn op_sne_byte(s: Machine) -> Machine {
    if s.registers[x_of(s.opcode)] != kk_of(s.opcode) {
        skipped(s)
    } else {
        s
    }
}

/// Skip if the two registers hold equal values.
pub open spec fn op_se_reg(s: Machine) -> Machine {
    if s.registers[x_of(s.opcode)] == s.registers[y_of(s.opcode)] {
        skipped(s)
    } else {
        s
    }
}

/// Load the byte immediate into the register.
pub open spec fn op_ld_byte(s: Machine) -> Machine {
    Machine { registers: s.registers.update(x_of(s.opcode), kk_of(s.opcode)), ..s }
}

/// Add the byte immediate to the register, modulo 256; the flag register
/// is not touched.
pub open spec fn op_add_byte(s: Machine) -> Machine {
    Machine {
        registers: s.registers.update(
            x_of(s.opcode),
            ((s.registers[x_of(s.opcode)] + kk_of(s.opcode)) % 256) as u8,
        ),
        ..s
    }
}

/// Set the index register to the address immediate.
pub open spec fn op_ld_index(s: Machine) -> Machine {
    Machine { index: nnn_of(s.opcode), ..s }
}

/// Copy the second register into the first.
pub open spec fn op_ld_reg(s: Machine) -> Machine {
    Machine {
        registers: s.registers.update(x_of(s.opcode), s.registers[y_of(s.opcode)]),
        ..s
    }
}

/// Bitwise OR of the two registers into the first; no flag side effect.
pub open spec fn op_or(s: Machine) -> Machine {
    Machine {
        registers: s.registers.update(
            x_of(s.opcode),
            s.registers[x_of(s.opcode)] | s.registers[y_of(s.opcode)],
        ),
        ..s
    }
}

/// Bitwise AND of the two registers into the first; no flag side effect.
pub open spec fn op_and(s: Machine) -> Machine {
    Machine {
        registers: s.registers.update(
            x_of(s.opcode),
            s.registers[x_of(s.opcode)] & s.registers[y_of(s.opcode)],
        ),
        ..s
    }
}

/// Bitwise XOR of the two registers into the first; no flag side effect.
pub open spec fn op_xor(s: Machine) -> Machine {
    Machine {
        registers: s.registers.update(
            x_of(s.opcode),
            s.registers[x_of(s.opcode)] ^ s.registers[y_of(s.opcode)],
        ),
        ..s
    }
}

/// Register-register add: the sum modulo 256, with the flag register set
/// to 1 exactly when the unreduced sum exceeds 255. The sum is read before
/// the flag is written, the destination after, so a flag-register operand
/// behaves as the write order dictates.
pub open spec fn op_add_reg(s: Machine) -> Machine {
    let sum = s.registers[x_of(s.opcode)] + s.registers[y_of(s.opcode)];
    let flagged = s.registers.update(15, if sum > 255 { 1u8 } else { 0u8 });
    Machine { registers: flagged.update(x_of(s.opcode), (sum % 256) as u8), ..s }
}

/// Subtract the second register from the first, modulo 256; the flag is 1
/// exactly when no borrow occurs (minuend at least subtrahend). The flag
/// is written before the operands of the subtraction are read.
pub open spec fn op_sub_xy(s: Machine) -> Machine {
    let borrow_free = s.registers[x_of(s.opcode)] >= s.registers[y_of(s.opcode)];
    let flagged = s.registers.update(15, if borrow_free { 1u8 } else { 0u8 });
    let diff = flagged[x_of(s.opcode)] - flagged[y_of(s.opcode)];
    Machine { registers: flagged.update(x_of(s.opcode), wrap8(diff)), ..s }
}

/// Subtract the first register from the second, modulo 256; the flag is 1
/// exactly when no borrow occurs (minuend at least subtrahend). The flag
/// is written before the operands of the subtraction are read.
pub open spec fn op_sub_yx(s: Machine) -> Machine {
    let borrow_free = s.registers[y_of(s.opcode)] >= s.registers[x_of(s.opcode)];
    let flagged = s.registers.update(15, if borrow_free { 1u8 } else { 0u8 });
    let diff = flagged[y_of(s.opcode)] - flagged[x_of(s.opcode)];
    Machine { registers: flagged.update(x_of(s.opcode), wrap8(diff)), ..s }
}

/// Shift right by one; the flag takes the bit shifted out. The flag is
/// written before the shifted operand is read.
pub open spec fn op_shr(s: Machine) -> Machine {
    let flagged = s.registers.update(15, s.registers[x_of(s.opcode)] & 0x1);
    Machine { registers: flagged.update(x_of(s.opcode), flagged[x_of(s.opcode)] >> 1u8), ..s }
}

/// Shift left by one, truncated to 8 bits; the flag takes the bit shifted
/// out. The flag is written before the shifted operand is read.
pub open spec fn op_shl(s: Machine) -> Machine {
    let flagged = s.registers.update(15, (s.registers[x_of(s.opcode)] & 0x80) >> 7u8);
    Machine { registers: flagged.update(x_of(s.opcode), flagged[x_of(s.opcode)] << 1u8), ..s }
}

/// Skip if the two register operands differ. Deliberate quirk of this
/// dialect: the comparison is between the register numbers in the opcode,
/// never between the registers' values, so the skip is taken exactly when
/// the opcode names the same register twice.
pub open spec fn op_sne_reg(s: Machine) -> Machine {
    if x_of(s.opcode) == y_of(s.opcode) {
        skipped(s)
    } else {
        s
    }
}

/// Jump to the address immediate offset by register 0.
pub open spec fn op_jump_v0(s: Machine) -> Machine {
    Machine { pc: (s.registers[0] + nnn_of(s.opcode)) as u16, ..s }
}

/// Mask a random byte with the byte immediate into the register. The byte
/// drawn is the transition's parameter: every value is a possible outcome.
pub open spec fn op_rand(s: Machine, rnd: u8) -> Machine {
    Machine { registers: s.registers.update(x_of(s.opcode), rnd & kk_of(s.opcode)), ..s }
}

/// The keypad slot a register value selects: its low four bits.
pub open spec fn key_slot(v: u8) -> int {
    (v & 0xF) as int
}

/// Skip if the key named by the register is pressed.
pub open spec fn op_skip_key(s: Machine) -> Machine {
    if s.keypad[key_slot(s.registers[x_of(s.opcode)])] != 0 {
        skipped(s)
    } else {
        s
    }
}

/// Skip if the key named by the register is not pressed.
pub open spec fn op_skip_nokey(s: Machine) -> Machine {
    if s.keypad[key_slot(s.registers[x_of(s.opcode)])] == 0 {
        skipped(s)
    } else {
        s
    }
}

/// Copy the delay timer into the register.
pub open spec fn op_ld_from_delay(s: Machine) -> Machine {
    Machine { registers: s.registers.update(x_of(s.opcode), s.delay_timer), ..s }
}

/// Set the delay timer from the register.
pub open spec fn op_ld_delay(s: Machine) -> Machine {
    Machine { delay_timer: s.registers[x_of(s.opcode)], ..s }
}

/// Set the sound timer from the register.
pub open spec fn op_ld_sound(s: Machine) -> Machine {
    Machine { sound_timer: s.registers[x_of(s.opcode)], ..s }
}

/// Add the register to the index register, wrapping modulo 2^16.
pub open spec fn op_add_index(s: Machine) -> Machine {
    Machine { index: wrap16(s.index + s.registers[x_of(s.opcode)]), ..s }
}

/// First memory address of the font glyph for a digit.
pub open spec fn font_addr(digit: u8) -> u16 {
    (0x50 + 5 * digit) as u16
}

/// Point the index register at the font glyph for the register's value.
pub open spec fn op_font(s: Machine) -> Machine {
    Machine { index: font_addr(s.registers[x_of(s.opcode)]), ..s }
}

/// Write the three decimal digits of the register value at the index
/// register: hundreds first, ones last.
pub open spec fn op_bcd(s: Machine) -> Machine {
    let v = s.registers[x_of(s.opcode)];
    Machine {
        memory: s.memory
            .update(maddr(s.index + 2), (v % 10) as u8)
            .update(maddr(s.index + 1), ((v / 10) % 10) as u8)
            .update(maddr(s.index as int), (v / 100) as u8),
        ..s
    }
}

/// Memory after registers 0 through `last` have been stored in order at
/// consecutive addresses from `index`.
pub open spec fn stored_regs(mem: Seq<u8>, regs: Seq<u8>, index: int, last: int) -> Seq<u8>
    decreases last + 1,
{
    if last < 0 {
        mem
    } else {
        stored_regs(mem, regs, index, last - 1).update(maddr(index + last), regs[last])
    }
}

/// Storing registers writes through updates only, so the memory size is
/// untouched.
pub proof fn lemma_stored_regs_len(mem: Seq<u8>, regs: Seq<u8>, index: int, last: int)
    requires
        mem.len() == 4096,
    ensures
        stored_regs(mem, regs, index, last).len() == mem.len(),
    decreases last + 1,
{
    if last >= 0 {
        lemma_stored_regs_len(mem, regs, index, last - 1);
        assert(0 <= maddr(index + last) < 4096);
    }
}

/// Store registers 0 through the first operand into memory at the index
/// register, which itself stays unchanged.
pub open spec fn op_store_regs(s: Machine) -> Machine {
    Machine {
        memory: stored_regs(s.memory, s.registers, s.index as int, x_of(s.opcode)),
        ..s
    }
}

/// Load registers 0 through the first operand from memory at the index
/// register, which itself stays unchanged.
pub open spec fn op_load_regs(s: Machine) -> Machine {
    Machine {
        registers: Seq::new(
            16,
            |i: int|
                if i <= x_of(s.opcode) {
                    s.memory[maddr(s.index + i)]
                } else {
                    s.registers[i]
                },
        ),
        ..s
    }
}

/// No keypad slot is pressed.
pub open spec fn no_key(s: Machine) -> bool {
    forall|k: int| 0 <= k < 16 ==> s.keypad[k] == 0
}

/// The lowest pressed keypad slot.
pub open spec fn first_key(s: Machine) -> int {
    choose|k: int|
        0 <= k < 16 && s.keypad[k] != 0 && (forall|j: int| 0 <= j < k ==> s.keypad[j] == 0)
}

/// Wait for a key: with no key pressed, rewind the program counter over
/// this instruction so the next cycle re-executes it; otherwise write the
/// lowest pressed key's number into the register and proceed.
pub open spec fn op_wait_key(s: Machine) -> Machine {
    if no_key(s) {
        Machine { pc: wrap16(s.pc - 2), ..s }
    } else {
        Machine { registers: s.registers.update(x_of(s.opcode), first_key(s) as u8), ..s }
    }
}

/// An 8-bit difference already known to lie within one wrap of range.
pub open spec fn wrap8(v: int) -> u8 {
    if v < 0 {
        (v + 256) as u8
    } else {
        v as u8
    }
}

// ---------------------------------------------------------------------------
// The draw instruction.
// ---------------------------------------------------------------------------

/// Sprite column `c` (0 leftmost) of a sprite row byte, as a boolean.
pub open spec fn sprite_bit(b: u8, c: int) -> bool {
    (b >> ((7 - c) as u8)) & 1 == 1
}

/// Screen column where the sprite origin lands: only the origin wraps.
pub open spec fn draw_x(s: Machine) -> int {
    s.registers[x_of(s.opcode)] as int % 64
}

/// Screen row where the sprite origin lands: only the origin wraps.
pub open spec fn draw_y(s: Machine) -> int {
    s.registers[y_of(s.opcode)] as int % 32
}

/// Whether the draw instruction toggles framebuffer cell `idx`: the cell
/// lies under the sprite, within the screen, and the sprite bit over it is
/// set. Rows and columns running past the screen edge are clipped, which
/// this predicate expresses by `idx` ranging over the screen only.
pub open spec fn draw_hits(s: Machine, idx: int) -> bool {
    let r = idx / 64;
    let c = idx % 64;
    &&& draw_y(s) <= r < draw_y(s) + n_of(s.opcode)
    &&& draw_x(s) <= c < draw_x(s) + 8
    &&& sprite_bit(s.memory[maddr(s.index + (r - draw_y(s)))], c - draw_x(s))
}

/// Whether the draw turns some pixel that was already on back off.
pub open spec fn draw_collision(s: Machine) -> bool {
    exists|idx: int| 0 <= idx < 2048 && #[trigger] draw_hits(s, idx) && s.video[idx] == pixel_on()
}

/// Draw a sprite of `n` rows read from memory at the index register, at
/// the screen position the two register operands give, by XOR; the flag
/// register reports whether a lit pixel was toggled off.
pub open spec fn op_draw(s: Machine) -> Machine {
    Machine {
        video: Seq::new(
            2048,
            |idx: int|
                if draw_hits(s, idx) {
                    s.video[idx] ^ pixel_on()
                } else {
                    s.video[idx]
                },
        ),
        registers: s.registers.update(15, if draw_collision(s) { 1u8 } else { 0u8 }),
        ..s
    }
}

// ---------------------------------------------------------------------------
// Fetch, decode and dispatch: one full cycle.
// ---------------------------------------------------------------------------

/// The instruction word at the program counter, high byte first.
pub open spec fn fetched_op(s: Machine) -> u16 {
    ((s.memory[maddr(s.pc as int)] as u16) << 8u16) | (s.memory[maddr(s.pc + 1)] as u16)
}

/// The state after the fetch stage: the opcode register holds the fetched
/// word and the program counter has moved past it, before dispatch, so a
/// jump is not advanced over.
pub open spec fn after_fetch(s: Machine) -> Machine {
    Machine { opcode: fetched_op(s), pc: wrap16(s.pc + 2), ..s }
}

/// Whether the opcode is the draw-a-random-byte instruction, the one
/// transition that consumes a random byte.
pub open spec fn is_rand_op(op: u16) -> bool {
    class_of(op) == 0xC
}

/// Decode and execute one already-fetched instruction. The leading nibble
/// selects the class; classes 0x0 and 0x8 decode further by the low
/// nibble, classes 0xE and 0xF by the low byte. An opcode matching no
/// pattern is a no-op.
pub open spec fn exec_op(s: Machine, rnd: u8) -> Machine {
    let op = s.opcode;
    if class_of(op) == 0x0 {
        if op & 0xF == 0x0 {
            op_cls(s)
        } else if op & 0xF == 0xE {
            op_ret(s)
        } else {
            s
        }
    } else if class_of(op) == 0x1 {
        op_jump(s)
    } else if class_of(op) == 0x2 {
        op_call(s)
    } else if class_of(op) == 0x3 {
        op_se_byte(s)
    } else if class_of(op) == 0x4 {
        op_sne_byte(s)
    } else if class_of(op) == 0x5 {
        op_se_reg(s)
    } else if class_of(op) == 0x6 {
        op_ld_byte(s)
    } else if class_of(op) == 0x7 {
        op_add_byte(s)
    } else if class_of(op) == 0x8 {
        if op & 0xF == 0x0 {
            op_ld_reg(s)
        } else if op & 0xF == 0x1 {
            op_or(s)
        } else if op & 0xF == 0x2 {
            op_and(s)
        } else if op & 0xF == 0x3 {
            op_xor(s)
        } else if op & 0xF == 0x4 {
            op_add_reg(s)
        } else if op & 0xF == 0x5 {
            op_sub_xy(s)
        } else if op & 0xF == 0x6 {
            op_shr(s)
        } else if op & 0xF == 0x7 {
            op_sub_yx(s)
        } else if op & 0xF == 0xE {
            op_shl(s)
        } else {
            s
        }
    } else if class_of(op) == 0x9 {
        op_sne_reg(s)
    } else if class_of(op) == 0xA {
        op_ld_index(s)
    } else if class_of(op) == 0xB {
        op_jump_v0(s)
    } else if class_of(op) == 0xC {
        op_rand(s, rnd)
    } else if class_of(op) == 0xD {
        op_draw(s)
    } else if class_of(op) == 0xE {
        if op & 0xFF == 0x9E {
            op_skip_key(s)
        } else if op & 0xFF == 0xA1 {
            op_skip_nokey(s)
        } else {
            s
        }
    } else if class_of(op) == 0xF {
        if op & 0xFF == 0x07 {
            op_ld_from_delay(s)
        } else if op & 0xFF == 0x0A {
            op_wait_key(s)
        } else if op & 0xFF == 0x15 {
            op_ld_delay(s)
        } else if op & 0xFF == 0x18 {
            op_ld_sound(s)
        } else if op & 0xFF == 0x1E {
            op_add_index(s)
        } else if op & 0xFF == 0x29 {
            op_font(s)
        } else if op & 0xFF == 0x33 {
            op_bcd(s)
        } else if op & 0xFF == 0x55 {
            op_store_regs(s)
        } else if op & 0xFF == 0x65 {
            op_load_regs(s)
        } else {
            s
        }
    } else {
        s
    }
}

/// One full fetch-decode-execute cycle over the abstract machine, with the
/// random byte the cycle may consume as a parameter.
pub open spec fn step(s: Machine, rnd: u8) -> Machine {
    exec_op(after_fetch(s), rnd)
}

// ---------------------------------------------------------------------------
// Construction, program loading and the timer tick.
// ---------------------------------------------------------------------------

/// The 80-byte font table burned in at construction: 16 glyphs of 5 rows
/// each, for the hexadecimal digits 0 through F.
pub open spec fn font_table() -> Seq<u8> {
    seq![
        0xF0u8, 0x90, 0x90, 0x90, 0xF0,
        0x20, 0x60, 0x20, 0x20, 0x70,
        0xF0, 0x10, 0xF0, 0x80, 0xF0,
        0xF0, 0x10, 0xF0, 0x10, 0xF0,
        0x90, 0x90, 0xF0, 0x10, 0x10,
        0xF0, 0x80, 0xF0, 0x10, 0xF0,
        0xF0, 0x80, 0xF0, 0x90, 0xF0,
        0xF0, 0x10, 0x20, 0x40, 0x40,
        0xF0, 0x90, 0xF0, 0x90, 0xF0,
        0xF0, 0x90, 0xF0, 0x10, 0xF0,
        0xF0, 0x90, 0xF0, 0x90, 0x90,
        0xE0, 0x90, 0xE0, 0x90, 0xE0,
        0xF0, 0x80, 0x80, 0x80, 0xF0,
        0xE0, 0x90, 0x90, 0x90, 0xE0,
        0xF0, 0x80, 0xF0, 0x80, 0xF0,
        0xF0, 0x80, 0xF0, 0x80, 0x80,
    ]
}

/// The state a freshly constructed interpreter is in: everything zero but
/// for the font table at 0x50..0xA0 and the program counter at the first
/// executable address, 0x200.
pub open spec fn initial_machine() -> Machine {
    Machine {
        registers: Seq::new(16, |i: int| 0u8),
        memory: Seq::new(
            4096,
            |i: int|
                if 0x50 <= i < 0xA0 {
                    font_table()[i - 0x50]
                } else {
                    0u8
                },
        ),
        keypad: Seq::new(16, |i: int| 0u16),
        index: 0,
        pc: 0x200,
        stack: Seq::new(16, |i: int| 0u16),
        sp: 0,
        delay_timer: 0,
        sound_timer: 0,
        video: Seq::new(2048, |i: int| 0u32),
        opcode: 0,
    }
}

/// Memory after a program image has been copied in verbatim starting at
/// the program counter.
pub open spec fn loaded_memory(s: Machine, rom: Seq<u8>) -> Seq<u8> {
    Seq::new(
        4096,
        |i: int|
            if s.pc <= i < s.pc + rom.len() {
                rom[i - s.pc]
            } else {
                s.memory[i]
            },
    )
}

/// The timer tick the external driver performs at its own fixed rate:
/// each timer counts down by one until it reaches zero.
pub open spec fn ticked(s: Machine) -> Machine {
    Machine {
        delay_timer: if s.delay_timer > 0 {
            (s.delay_timer - 1) as u8
        } else {
            0
        },
        sound_timer: if s.sound_timer > 0 {
            (s.sound_timer - 1) as u8
        } else {
            0
        },
        ..s
    }
}

} // verus!
