//! Laws of the instruction set that relate several transitions, proved
//! once over every machine state they speak of.

use vstd::prelude::*;

use crate::state::{
    after_fetch, draw_collision, draw_hits, fetched_op, first_key, no_key, op_draw, op_wait_key,
    pixel_on, step, wf, wrap16, x_of, y_of, Machine,
};

verus! {

/// Every framebuffer pixel is off (0) or on (0xFFFF_FFFF): the only two
/// values a renderer should ever observe.
pub open spec fn video_valid(s: Machine) -> bool {
    forall|i: int| 0 <= i < s.video.len() ==> (s.video[i] == 0u32 || s.video[i] == pixel_on())
}

/// A cycle keeps the machine well formed and the framebuffer valid: the
/// only instructions that touch pixels either clear them or toggle them
/// between the two valid values.
pub proof fn lemma_step_preserves_video_validity(s: Machine, b: u8)
    requires
        wf(s),
        video_valid(s),
    ensures
        wf(step(s, b)),
        video_valid(step(s, b)),
{
    assert(0xFFFF_FFFFu32 ^ 0xFFFF_FFFFu32 == 0u32) by (bit_vector);
    assert(0u32 ^ 0xFFFF_FFFFu32 == 0xFFFF_FFFFu32) by (bit_vector);
    let m = after_fetch(s);
    crate::state::lemma_operand_bounds(m.opcode);
    crate::state::lemma_stored_regs_len(m.memory, m.registers, m.index as int, x_of(m.opcode));
    assert(0 <= crate::state::maddr(m.index as int) < 4096);
    assert(0 <= crate::state::maddr(m.index + 1) < 4096);
    assert(0 <= crate::state::maddr(m.index + 2) < 4096);
}

/// Drawing the identical sprite at the identical position twice in
/// succession restores the framebuffer: XOR cancels itself. The flag
/// register may change, so the sprite's position and height must not be
/// read from it. Every other register keeps its value throughout.
pub proof fn lemma_draw_twice_restores(s: Machine)
    requires
        wf(s),
        x_of(s.opcode) != 15,
        y_of(s.opcode) != 15,
    ensures
        op_draw(op_draw(s)).video == s.video,
        forall|i: int|
            0 <= i < 16 && i != 15 ==> op_draw(op_draw(s)).registers[i] == s.registers[i],
{
    let s1 = op_draw(s);
    assert(forall|v: u32| #[trigger] ((v ^ 0xFFFF_FFFFu32) ^ 0xFFFF_FFFFu32) == v)
        by (bit_vector);
    crate::state::lemma_operand_bounds(s.opcode);
    assert(s1.registers[x_of(s.opcode)] == s.registers[x_of(s.opcode)]);
    assert(s1.registers[y_of(s.opcode)] == s.registers[y_of(s.opcode)]);
    assert(forall|idx: int|
        0 <= idx < 2048 ==> (#[trigger] draw_hits(s1, idx) <==> draw_hits(s, idx)));
    assert(op_draw(s1).video =~= s.video);
}

/// A single draw reports a collision exactly when a pixel that was lit
/// before the draw began lies under a set sprite bit: the pixels the draw
/// itself lights never count.
pub proof fn lemma_draw_collision_is_prior(s: Machine)
    requires
        wf(s),
    ensures
        op_draw(s).registers[15] == 1u8 <==> exists|idx: int|
            0 <= idx < 2048 && #[trigger] draw_hits(s, idx) && s.video[idx] == pixel_on(),
{
    assert(op_draw(s).registers[15] == if draw_collision(s) {
        1u8
    } else {
        0u8
    });
}

/// With the wait-for-key instruction at the program counter and no key
/// pressed, a cycle leaves the whole machine where it was: the rewind
/// exactly cancels the fetch advance, whatever byte the cycle drew.
pub proof fn lemma_key_wait_blocks(s: Machine, b: u8)
    requires
        wf(s),
        crate::state::class_of(fetched_op(s)) == 0xF,
        fetched_op(s) & 0xFF == 0x0A,
        forall|k: int| 0 <= k < 16 ==> s.keypad[k] == 0,
    ensures
        step(s, b).pc == s.pc,
        step(s, b).registers == s.registers,
        step(s, b).memory == s.memory,
        step(s, b).video == s.video,
{
    let m = after_fetch(s);
    assert(no_key(m));
    assert(op_wait_key(m).pc == wrap16(wrap16(s.pc + 2) - 2));
    assert(wrap16(wrap16(s.pc + 2) - 2) == s.pc);
}

/// With the wait-for-key instruction at the program counter and `k` the
/// lowest pressed key, a cycle writes `k` into the named register and
/// advances the program counter normally.
pub proof fn lemma_key_wait_release(s: Machine, b: u8, k: int)
    requires
        wf(s),
        crate::state::class_of(fetched_op(s)) == 0xF,
        fetched_op(s) & 0xFF == 0x0A,
        0 <= k < 16,
        s.keypad[k] != 0,
        forall|j: int| 0 <= j < k ==> s.keypad[j] == 0,
    ensures
        step(s, b).pc == wrap16(s.pc + 2),
        step(s, b).registers == s.registers.update(x_of(fetched_op(s)), k as u8),
{
    crate::state::lemma_operand_bounds(fetched_op(s));
    let m = after_fetch(s);
    assert(m.keypad[k] != 0);
    assert(!no_key(m));
    let c = first_key(m);
    assert(0 <= c < 16 && m.keypad[c] != 0 && (forall|j: int| 0 <= j < c ==> m.keypad[j] == 0))
        by {
        assert(0 <= k < 16 && m.keypad[k] != 0 && (forall|j: int| 0 <= j < k ==> m.keypad[j] == 0));
        assert(exists|i: int|
            0 <= i < 16 && m.keypad[i] != 0 && (forall|j: int| 0 <= j < i ==> m.keypad[j] == 0));
    }
    assert(c == k) by {
        if c < k {
            assert(m.keypad[c] == 0);
        }
        if k < c {
            assert(m.keypad[k] == 0);
        }
    }
}

} // verus!
