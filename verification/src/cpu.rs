//! The concrete interpreter. Every handler is proved to perform exactly the
//! transition that `state` defines for its instruction.

use vstd::prelude::*;

use crate::rng::{new_rng, next_byte};
use crate::state::{
    after_fetch, draw_collision, draw_hits, draw_x, draw_y, exec_op, fetched_op, first_key,
    font_table, initial_machine, is_rand_op, kk_of, loaded_memory, maddr, n_of, no_key,
    op_add_byte, op_add_index, op_add_reg, op_and, op_bcd, op_call, op_cls, op_draw, op_font,
    op_jump, op_jump_v0, op_ld_byte, op_ld_delay, op_ld_from_delay, op_ld_index, op_ld_reg,
    op_ld_sound, op_load_regs, op_or, op_rand, op_ret, op_se_byte, op_se_reg, op_shl, op_shr,
    op_skip_key, op_skip_nokey, op_sne_byte, op_sne_reg, op_store_regs, op_sub_xy, op_sub_yx,
    op_wait_key, op_xor, pixel_on, sprite_bit, step, stored_regs, ticked, x_of, y_of, Machine,
};

verus! {

/// Whether the draw toggles cell `idx` through one of the first `k` sprite
/// positions in row-major order: the prefix of the draw a partially run
/// pair of loops has performed.
spec fn draw_hits_before(s: Machine, idx: int, k: int) -> bool {
    let r = idx / 64;
    let c = idx % 64;
    &&& draw_hits(s, idx)
    &&& (r - draw_y(s)) * 8 + (c - draw_x(s)) < k
}

/// The framebuffer after the first `k` sprite positions have been drawn.
spec fn partial_draw(s: Machine, k: int) -> Seq<u32> {
    Seq::new(
        2048,
        |idx: int|
            if draw_hits_before(s, idx, k) {
                s.video[idx] ^ pixel_on()
            } else {
                s.video[idx]
            },
    )
}

/// Whether one of the first `k` sprite positions toggled a lit pixel off.
spec fn partial_collision(s: Machine, k: int) -> bool {
    exists|idx: int|
        0 <= idx < 2048 && #[trigger] draw_hits_before(s, idx, k) && s.video[idx] == pixel_on()
}

/// The machine mid-draw: framebuffer and flag register as far as the
/// first `k` sprite positions take them.
spec fn partial_draw_state(s: Machine, k: int) -> Machine {
    Machine {
        video: partial_draw(s, k),
        registers: s.registers.update(15, if partial_collision(s, k) { 1u8 } else { 0u8 }),
        ..s
    }
}

/// Running the sprite position after `(row, col)` extends the drawn prefix
/// by exactly the cell that position lands on, if any.
proof fn lemma_prefix_extend(s: Machine, row: int, col: int)
    requires
        0 <= row < n_of(s.opcode),
        0 <= col < 8,
    ensures
        forall|idx: int|
            0 <= idx < 2048 ==> (#[trigger] draw_hits_before(s, idx, row * 8 + col + 1) <==> (
            draw_hits_before(s, idx, row * 8 + col) || (draw_hits(s, idx) && idx / 64 == draw_y(s)
                + row && idx % 64 == draw_x(s) + col))),
{
    assert forall|idx: int| 0 <= idx < 2048 implies (#[trigger] draw_hits_before(
        s,
        idx,
        row * 8 + col + 1,
    ) <==> (draw_hits_before(s, idx, row * 8 + col) || (draw_hits(s, idx) && idx / 64 == draw_y(s)
        + row && idx % 64 == draw_x(s) + col))) by {
        let r = idx / 64;
        let c = idx % 64;
        if draw_hits(s, idx) {
            let lin = (r - draw_y(s)) * 8 + (c - draw_x(s));
            assert(0 <= c - draw_x(s) < 8);
            assert(lin == row * 8 + col <==> (r - draw_y(s) == row && c - draw_x(s) == col));
        }
    }
}

/// The interpreter core: memory, registers, call stack, timers, framebuffer,
/// keypad and the random-number source of the draw-a-random-byte instruction.
/// All architectural state is public; the external driver writes the keypad
/// before a cycle and reads the framebuffer after one.
pub struct Chip8 {
    pub registers: [u8; 16],
    pub memory: [u8; 4096],
    pub keypad: [u16; 16],
    pub index: u16,
    pub pc: u16,
    pub stack: [u16; 16],
    pub sp: u8,
    pub delay_timer: u8,
    pub sound_timer: u8,
    pub video: [u32; 2048],
    pub opcode: u16,
    pub rand_gen: rand::rngs::ThreadRng,
    pub rand_byte: u8,
}

impl View for Chip8 {
    type V = Machine;

    open spec fn view(&self) -> Machine {
        Machine {
            registers: self.registers@,
            memory: self.memory@,
            keypad: self.keypad@,
            index: self.index,
            pc: self.pc,
            stack: self.stack@,
            sp: self.sp,
            delay_timer: self.delay_timer,
            sound_timer: self.sound_timer,
            video: self.video@,
            opcode: self.opcode,
        }
    }
}

/// The first register operand: bits 8..12 of the opcode.
pub fn get_vx(opcode: u16) -> (r: usize)
    ensures
        r == x_of(opcode),
        r < 16,
{
    proof {
        assert((opcode & 0x0F00) >> 8 == (opcode >> 8) & 0xF) by (bit_vector);
        assert((opcode >> 8) & 0xF < 16) by (bit_vector);
    }
    ((opcode & 0x0F00) >> 8) as usize
}

/// The second register operand: bits 4..8 of the opcode.
pub fn get_vy(opcode: u16) -> (r: usize)
    ensures
        r == y_of(opcode),
        r < 16,
{
    proof {
        assert((opcode & 0x00F0) >> 4 == (opcode >> 4) & 0xF) by (bit_vector);
        assert((opcode >> 4) & 0xF < 16) by (bit_vector);
    }
    ((opcode & 0x00F0) >> 4) as usize
}

/// The byte immediate: the low byte of the opcode.
pub fn get_byte(opcode: u16) -> (r: u8)
    ensures
        r == kk_of(opcode),
{
    proof {
        assert(opcode & 0xFF < 256) by (bit_vector);
    }
    (opcode & 0x00FF) as u8
}

#[allow(non_snake_case)]
impl Chip8 {
    /// A fully initialized core: memory zero but for the font table at
    /// 0x50..0xA0, registers, stack, timers, keypad and framebuffer zero,
    /// program counter at 0x200. No inputs and no failure modes.
    pub fn new() -> (c: Chip8)
        ensures
            c@ == initial_machine(),
    {
        let font: Vec<u8> = vec![
            0xF0, 0x90, 0x90, 0x90, 0xF0,
            0x20, 0x60, 0x20, 0x20, 0x70,
            0xF0, 0x10, 0xF0, 0x80, 0xF0,
            0xF0, 0x10, 0xF0, 0x10, 0xF0,
            0x90, 0x90, 0xF0, 0x10, 0x10,
            0xF0, 0x80, 0xF0, 0x10, 0xF0,
            0xF0, 0x80, 0xF0, 0x90, 0xF0,
            0xF0, 0x10, 0x20, 0x40, 0x40,
            0xF0, 0x90, 0xF0, 0x90, 0xF0,
            0xF0, 0x90, 0xF0, 0x10, 0xF0,
            0xF0, 0x90, 0xF0, 0x90, 0x90,
            0xE0, 0x90, 0xE0, 0x90, 0xE0,
            0xF0, 0x80, 0x80, 0x80, 0xF0,
            0xE0, 0x90, 0x90, 0x90, 0xE0,
            0xF0, 0x80, 0xF0, 0x80, 0xF0,
            0xF0, 0x80, 0xF0, 0x80, 0x80,
        ];
        proof {
            assert(font@ =~= font_table());
        }
        let mut memory: [u8; 4096] = [0; 4096];
        let mut i: usize = 0;
        while i < 80
            invariant
                i <= 80,
                font@ == font_table(),
                forall|j: int|
                    0 <= j < 4096 ==> memory@[j] == (if 0x50 <= j < 0x50 + i {
                        font_table()[j - 0x50]
                    } else {
                        0u8
                    }),
            decreases 80 - i,
        {
            memory[0x50 + i] = font[i];
            i = i + 1;
        }
        let mut rng = new_rng();
        let rb = next_byte(&mut rng);
        let c = Chip8 {
            registers: [0; 16],
            memory,
            keypad: [0; 16],
            index: 0,
            pc: 0x200,
            stack: [0; 16],
            sp: 0,
            delay_timer: 0,
            sound_timer: 0,
            video: [0; 2048],
            opcode: 0,
            rand_gen: rng,
            rand_byte: rb,
        };
        proof {
            assert(c@.memory =~= initial_machine().memory);
            assert(c@.registers =~= initial_machine().registers);
            assert(c@.keypad =~= initial_machine().keypad);
            assert(c@.stack =~= initial_machine().stack);
            assert(c@.video =~= initial_machine().video);
        }
        c
    }

    /// Copy a program image verbatim into memory starting at the program
    /// counter, and hand the same bytes back. An image that would run past
    /// the end of memory is the caller's defect and is ruled out here.
    pub fn load_rom(&mut self, rom: &Vec<u8>) -> (loaded: Vec<u8>)
        requires
            rom@.len() == 0 || old(self).pc + rom@.len() <= 4096,
        ensures
            final(self)@ == (Machine { memory: loaded_memory(old(self)@, rom@), ..old(self)@ }),
            loaded@ == rom@,
            final(self).rand_byte == old(self).rand_byte,
    {
        let mut out: Vec<u8> = Vec::new();
        let mut i: usize = 0;
        proof {
            assert(Seq::new(
                4096,
                |a: int|
                    if old(self)@.pc <= a < old(self)@.pc + i {
                        rom@[a - old(self)@.pc]
                    } else {
                        old(self)@.memory[a]
                    },
            ) =~= old(self)@.memory);
            assert(out@ =~= rom@.subrange(0, i as int));
        }
        while i < rom.len()
            invariant
                i <= rom@.len(),
                rom@.len() == 0 || old(self).pc + rom@.len() <= 4096,
                out@ == rom@.subrange(0, i as int),
                self@ == (Machine {
                    memory: Seq::new(
                        4096,
                        |a: int|
                            if old(self)@.pc <= a < old(self)@.pc + i {
                                rom@[a - old(self)@.pc]
                            } else {
                                old(self)@.memory[a]
                            },
                    ),
                    ..old(self)@
                }),
                self.rand_byte == old(self).rand_byte,
                self.rand_gen == old(self).rand_gen,
            decreases rom@.len() - i,
        {
            let b = rom[i];
            self.memory[self.pc as usize + i] = b;
            out.push(b);
            i = i + 1;
            proof {
                assert(self.memory@ =~= Seq::new(
                    4096,
                    |a: int|
                        if old(self)@.pc <= a < old(self)@.pc + i {
                            rom@[a - old(self)@.pc]
                        } else {
                            old(self)@.memory[a]
                        },
                ));
                assert(out@ =~= rom@.subrange(0, i as int));
            }
        }
        proof {
            assert(out@ =~= rom@);
            assert(self@.memory =~= loaded_memory(old(self)@, rom@));
        }
        out
    }

    /// The external driver's timer tick: each timer counts down by one
    /// until it reaches zero.
    pub fn tick_timers(&mut self)
        ensures
            final(self)@ == ticked(old(self)@),
            final(self).rand_byte == old(self).rand_byte,
    {
        if self.delay_timer > 0 {
            self.delay_timer = self.delay_timer - 1;
        }
        if self.sound_timer > 0 {
            self.sound_timer = self.sound_timer - 1;
        }
    }

    /// Jump: the program counter becomes the address immediate.
    pub fn OP_1NNN(&mut self)
        ensures
            final(self)@ == op_jump(old(self)@),
            final(self).rand_byte == old(self).rand_byte,
    {
        self.pc = self.opcode & 0x0FFF;
    }

    /// Set the index register to the address immediate.
    pub fn OP_ANNN(&mut self)
        ensures
            final(self)@ == op_ld_index(old(self)@),
            final(self).rand_byte == old(self).rand_byte,
    {
        self.index = self.opcode & 0x0FFF;
    }

    /// Load the byte immediate into the register.
    pub fn OP_6XKK(&mut self)
        ensures
            final(self)@ == op_ld_byte(old(self)@),
            final(self).rand_byte == old(self).rand_byte,
    {
        let vx = get_vx(self.opcode);
        let byte = get_byte(self.opcode);
        self.registers[vx] = byte;
    }

    /// Add the byte immediate to the register, wrapping modulo 256; the
    /// flag register is not touched.
    pub fn OP_7XKK(&mut self)
        ensures
            final(self)@ == op_add_byte(old(self)@),
            final(self).rand_byte == old(self).rand_byte,
    {
        let vx = get_vx(self.opcode);
        let byte = get_byte(self.opcode);
        let sum: u16 = self.registers[vx] as u16 + byte as u16;
        self.registers[vx] = (sum % 256) as u8;
    }

    /// Clear screen: every framebuffer pixel off.
    pub fn OP_00E0(&mut self)
        ensures
            final(self)@ == op_cls(old(self)@),
            final(self).rand_byte == old(self).rand_byte,
    {
        self.video = [0u32; 2048];
        proof {
            assert(self.video@ =~= Seq::new(2048, |i: int| 0u32));
        }
    }

    /// The no-op every unrecognized opcode decodes to.
    pub fn OP_NULL(&mut self)
        ensures
            *final(self) == *old(self),
    {
    }

    /// Return from subroutine: pop the stack into the program counter.
    /// With no occupied slot the instruction does nothing.
    pub fn OP_00EE(&mut self)
        ensures
            final(self)@ == op_ret(old(self)@),
            final(self).rand_byte == old(self).rand_byte,
    {
        if self.sp >= 1 && self.sp <= 16 {
            self.sp = self.sp - 1;
            self.pc = self.stack[self.sp as usize];
        }
    }

    /// Call subroutine: push the program counter, then jump to the address
    /// immediate. With all slots occupied the instruction does nothing.
    pub fn OP_2NNN(&mut self)
        ensures
            final(self)@ == op_call(old(self)@),
            final(self).rand_byte == old(self).rand_byte,
    {
        let address = self.opcode & 0x0FFF;
        if self.sp < 16 {
            self.stack[self.sp as usize] = self.pc;
            self.sp = self.sp + 1;
            self.pc = address;
        }
    }

    /// Skip the next instruction if the register equals the byte immediate.
    pub fn OP_3XKK(&mut self)
        ensures
            final(self)@ == op_se_byte(old(self)@),
            final(self).rand_byte == old(self).rand_byte,
    {
        let vx = get_vx(self.opcode);
        let byte = get_byte(self.opcode);
        if self.registers[vx] == byte {
            self.pc = self.pc.wrapping_add(2);
        }
    }

    /// Skip the next instruction if the register differs from the byte
    /// immediate.
    pub fn OP_4XKK(&mut self)
        ensures
            final(self)@ == op_sne_byte(old(self)@),
            final(self).rand_byte == old(self).rand_byte,
    {
        let vx = get_vx(self.opcode);
        let byte = get_byte(self.opcode);
        if self.registers[vx] != byte {
            self.pc = self.pc.wrapping_add(2);
        }
    }

    /// Skip the next instruction if the two registers hold equal values.
    pub fn OP_5XY0(&mut self)
        ensures
            final(self)@ == op_se_reg(old(self)@),
            final(self).rand_byte == old(self).rand_byte,
    {
        let vx = get_vx(self.opcode);
        let vy = get_vy(self.opcode);
        if self.registers[vx] == self.registers[vy] {
            self.pc = self.pc.wrapping_add(2);
        }
    }

    /// Copy the second register into the first.
    pub fn OP_8XY0(&mut self)
        ensures
            final(self)@ == op_ld_reg(old(self)@),
            final(self).rand_byte == old(self).rand_byte,
    {
        let vx = get_vx(self.opcode);
        let vy = get_vy(self.opcode);
        self.registers[vx] = self.registers[vy];
    }

    /// Bitwise OR of the two registers into the first.
    pub fn OP_8XY1(&mut self)
        ensures
            final(self)@ == op_or(old(self)@),
            final(self).rand_byte == old(self).rand_byte,
    {
        let vx = get_vx(self.opcode);
        let vy = get_vy(self.opcode);
        let v = self.registers[vx] | self.registers[vy];
        self.registers[vx] = v;
    }

    /// Bitwise AND of the two registers into the first.
    pub fn OP_8XY2(&mut self)
        ensures
            final(self)@ == op_and(old(self)@),
            final(self).rand_byte == old(self).rand_byte,
    {
        let vx = get_vx(self.opcode);
        let vy = get_vy(self.opcode);
        let v = self.registers[vx] & self.registers[vy];
        self.registers[vx] = v;
    }

    /// Bitwise XOR of the two registers into the first.
    pub fn OP_8XY3(&mut self)
        ensures
            final(self)@ == op_xor(old(self)@),
            final(self).rand_byte == old(self).rand_byte,
    {
        let vx = get_vx(self.opcode);
        let vy = get_vy(self.opcode);
        let v = self.registers[vx] ^ self.registers[vy];
        self.registers[vx] = v;
    }

    /// Register-register add modulo 256; the flag register reports whether
    /// the unreduced sum exceeded 255.
    pub fn OP_8XY4(&mut self)
        ensures
            final(self)@ == op_add_reg(old(self)@),
            final(self).rand_byte == old(self).rand_byte,
    {
        let vx = get_vx(self.opcode);
        let vy = get_vy(self.opcode);
        let sum: u16 = self.registers[vx] as u16 + self.registers[vy] as u16;
        if sum > 255 {
            self.registers[0xF] = 1;
        } else {
            self.registers[0xF] = 0;
        }
        self.registers[vx] = (sum % 256) as u8;
    }

    /// Subtract the second register from the first, modulo 256; the flag
    /// register reports that no borrow occurred.
    pub fn OP_8XY5(&mut self)
        ensures
            final(self)@ == op_sub_xy(old(self)@),
            final(self).rand_byte == old(self).rand_byte,
    {
        let vx = get_vx(self.opcode);
        let vy = get_vy(self.opcode);
        if self.registers[vx] >= self.registers[vy] {
            self.registers[0xF] = 1;
        } else {
            self.registers[0xF] = 0;
        }
        let v = self.registers[vx].wrapping_sub(self.registers[vy]);
        self.registers[vx] = v;
    }

    /// Shift the register right by one; the flag register takes the bit
    /// shifted out.
    pub fn OP_8XY6(&mut self)
        ensures
            final(self)@ == op_shr(old(self)@),
            final(self).rand_byte == old(self).rand_byte,
    {
        let vx = get_vx(self.opcode);
        self.registers[0xF] = self.registers[vx] & 0x1;
        let v = self.registers[vx] >> 1u8;
        self.registers[vx] = v;
    }

    /// Subtract the first register from the second, modulo 256; the flag
    /// register reports that no borrow occurred.
    pub fn OP_8XY7(&mut self)
        ensures
            final(self)@ == op_sub_yx(old(self)@),
            final(self).rand_byte == old(self).rand_byte,
    {
        let vx = get_vx(self.opcode);
        let vy = get_vy(self.opcode);
        if self.registers[vy] >= self.registers[vx] {
            self.registers[0xF] = 1;
        } else {
            self.registers[0xF] = 0;
        }
        let v = self.registers[vy].wrapping_sub(self.registers[vx]);
        self.registers[vx] = v;
    }

    /// Shift the register left by one, truncated to 8 bits; the flag
    /// register takes the bit shifted out.
    pub fn OP_8XYE(&mut self)
        ensures
            final(self)@ == op_shl(old(self)@),
            final(self).rand_byte == old(self).rand_byte,
    {
        let vx = get_vx(self.opcode);
        self.registers[0xF] = (self.registers[vx] & 0x80) >> 7u8;
        let v = self.registers[vx] << 1u8;
        self.registers[vx] = v;
    }

    /// Skip the next instruction if the two register operands differ.
    /// Deliberate quirk of this dialect: the register numbers in the
    /// opcode are compared, not the registers' values.
    pub fn OP_9XY0(&mut self)
        ensures
            final(self)@ == op_sne_reg(old(self)@),
            final(self).rand_byte == old(self).rand_byte,
    {
        let vx = get_vx(self.opcode);
        let vy = get_vy(self.opcode);
        if vx == vy {
            self.pc = self.pc.wrapping_add(2);
        }
    }

    /// Jump to the address immediate offset by register 0.
    pub fn OP_BNNN(&mut self)
        ensures
            final(self)@ == op_jump_v0(old(self)@),
            final(self).rand_byte == old(self).rand_byte,
    {
        let address = self.opcode & 0x0FFF;
        proof {
            let op = self.opcode;
            assert(op & 0x0FFF < 4096) by (bit_vector);
        }
        self.pc = self.registers[0] as u16 + address;
    }

    /// Draw a random byte masked by the byte immediate into the register.
    pub fn OP_CXKK(&mut self)
        ensures
            exists|b: u8| final(self)@ == op_rand(old(self)@, b),
            final(self).rand_byte == old(self).rand_byte,
    {
        let byte = get_byte(self.opcode);
        let vx = get_vx(self.opcode);
        let r = next_byte(&mut self.rand_gen);
        self.registers[vx] = r & byte;
        proof {
            assert(self@ == op_rand(old(self)@, r));
        }
    }

    /// Draw a sprite of `n` rows read from memory at the index register at
    /// the screen position the two registers give, by XOR. Only the origin
    /// wraps; rows and columns past the screen edge are clipped. The flag
    /// register reports whether a lit pixel was toggled off.
    pub fn OP_DXYN(&mut self)
        ensures
            final(self)@ == op_draw(old(self)@),
            final(self).rand_byte == old(self).rand_byte,
    {
        let ghost s0 = self@;
        let vx = get_vx(self.opcode);
        let vy = get_vy(self.opcode);
        let height = (self.opcode & 0x000F) as u8;
        proof {
            let op = self.opcode;
            assert(op & 0x000F < 16) by (bit_vector);
        }
        let x_pos = self.registers[vx] % 64;
        let y_pos = self.registers[vy] % 32;
        self.registers[0xF] = 0;
        proof {
            assert(forall|idx: int| 0 <= idx < 2048 ==> !draw_hits_before(s0, idx, 0));
            assert(partial_draw(s0, 0) =~= s0.video);
            assert(self@ == partial_draw_state(s0, 0));
        }
        let mut row: u8 = 0;
        while row < height
            invariant
                row <= height,
                s0 == old(self)@,
                height == n_of(s0.opcode),
                height < 16,
                x_pos == draw_x(s0),
                x_pos < 64,
                y_pos == draw_y(s0),
                y_pos < 32,
                self@ == partial_draw_state(s0, row as int * 8),
                self.rand_byte == old(self).rand_byte,
                self.rand_gen == old(self).rand_gen,
            decreases height - row,
        {
            let sprite_byte = self.memory[(self.index as usize + row as usize) % 4096];
            proof {
                assert(sprite_byte == s0.memory[maddr(s0.index + row)]);
            }
            let mut col: u8 = 0;
            while col < 8
                invariant
                    col <= 8,
                    row < height,
                    s0 == old(self)@,
                    height == n_of(s0.opcode),
                    height < 16,
                    x_pos == draw_x(s0),
                    x_pos < 64,
                    y_pos == draw_y(s0),
                    y_pos < 32,
                    sprite_byte == s0.memory[maddr(s0.index + row)],
                    self@ == partial_draw_state(s0, row as int * 8 + col),
                    self.rand_byte == old(self).rand_byte,
                    self.rand_gen == old(self).rand_gen,
                decreases 8 - col,
            {
                let ghost k: int = row as int * 8 + col as int;
                proof {
                    lemma_prefix_extend(s0, row as int, col as int);
                }
                let tr = y_pos + row;
                let tc = x_pos + col;
                if tr < 32 && tc < 64 {
                    let idx = (tr as usize) * 64 + (tc as usize);
                    proof {
                        assert(idx < 2048);
                        assert(idx as int / 64 == tr as int && idx as int % 64 == tc as int);
                    }
                    let bit = (sprite_byte >> (7 - col)) & 1;
                    if bit == 1 {
                        proof {
                            assert(sprite_bit(s0.memory[maddr(s0.index + row)], col as int));
                            assert(draw_hits(s0, idx as int));
                            assert(!draw_hits_before(s0, idx as int, k));
                            assert(self.video@[idx as int] == s0.video[idx as int]);
                        }
                        let collided = self.video[idx] == 0xFFFF_FFFF;
                        if collided {
                            self.registers[0xF] = 1;
                        }
                        let v = self.video[idx] ^ 0xFFFF_FFFF;
                        self.video[idx] = v;
                        proof {
                            assert(self.video@ =~= partial_draw(s0, k + 1));
                            if collided {
                                assert(draw_hits_before(s0, idx as int, k + 1));
                                assert(partial_collision(s0, k + 1));
                                assert(self.registers@ =~= s0.registers.update(15, 1u8));
                            } else {
                                assert(partial_collision(s0, k + 1) <==> partial_collision(
                                    s0,
                                    k,
                                )) by {
                                    if partial_collision(s0, k) {
                                        let w = choose|i: int|
                                            0 <= i < 2048 && #[trigger] draw_hits_before(s0, i, k)
                                                && s0.video[i] == pixel_on();
                                        assert(draw_hits_before(s0, w, k + 1));
                                    }
                                    if partial_collision(s0, k + 1) {
                                        let w = choose|i: int|
                                            0 <= i < 2048 && #[trigger] draw_hits_before(
                                                s0,
                                                i,
                                                k + 1,
                                            ) && s0.video[i] == pixel_on();
                                        assert(w != idx as int);
                                        assert(draw_hits_before(s0, w, k));
                                    }
                                }
                            }
                            assert(self@ == partial_draw_state(s0, k + 1));
                        }
                    } else {
                        proof {
                            assert(!sprite_bit(s0.memory[maddr(s0.index + row)], col as int));
                            assert(!draw_hits(s0, idx as int));
                            assert(forall|i: int|
                                0 <= i < 2048 ==> (#[trigger] draw_hits_before(s0, i, k + 1)
                                    <==> draw_hits_before(s0, i, k)));
                            assert(partial_draw(s0, k + 1) =~= partial_draw(s0, k));
                            assert(partial_collision(s0, k + 1) <==> partial_collision(s0, k)) by {
                                if partial_collision(s0, k) {
                                    let w = choose|i: int|
                                        0 <= i < 2048 && #[trigger] draw_hits_before(s0, i, k)
                                            && s0.video[i] == pixel_on();
                                    assert(draw_hits_before(s0, w, k + 1));
                                }
                                if partial_collision(s0, k + 1) {
                                    let w = choose|i: int|
                                        0 <= i < 2048 && #[trigger] draw_hits_before(s0, i, k + 1)
                                            && s0.video[i] == pixel_on();
                                    assert(draw_hits_before(s0, w, k));
                                }
                            }
                            assert(self@ == partial_draw_state(s0, k + 1));
                        }
                    }
                } else {
                    proof {
                        assert(forall|i: int|
                            0 <= i < 2048 ==> !(#[trigger] draw_hits(s0, i) && i / 64 == draw_y(s0)
                                + row && i % 64 == draw_x(s0) + col));
                        assert(forall|i: int|
                            0 <= i < 2048 ==> (#[trigger] draw_hits_before(s0, i, k + 1)
                                <==> draw_hits_before(s0, i, k)));
                        assert(partial_draw(s0, k + 1) =~= partial_draw(s0, k));
                        assert(partial_collision(s0, k + 1) <==> partial_collision(s0, k)) by {
                            if partial_collision(s0, k) {
                                let w = choose|i: int|
                                    0 <= i < 2048 && #[trigger] draw_hits_before(s0, i, k)
                                        && s0.video[i] == pixel_on();
                                assert(draw_hits_before(s0, w, k + 1));
                            }
                            if partial_collision(s0, k + 1) {
                                let w = choose|i: int|
                                    0 <= i < 2048 && #[trigger] draw_hits_before(s0, i, k + 1)
                                        && s0.video[i] == pixel_on();
                                assert(draw_hits_before(s0, w, k));
                            }
                        }
                        assert(self@ == partial_draw_state(s0, k + 1));
                    }
                }
                col = col + 1;
            }
            row = row + 1;
        }
        proof {
            let total: int = height as int * 8;
            assert(forall|idx: int|
                0 <= idx < 2048 ==> (#[trigger] draw_hits_before(s0, idx, total) <==> draw_hits(
                    s0,
                    idx,
                )));
            assert(partial_draw(s0, total) =~= op_draw(s0).video);
            assert(partial_collision(s0, total) <==> draw_collision(s0)) by {
                if partial_collision(s0, total) {
                    let w = choose|i: int|
                        0 <= i < 2048 && #[trigger] draw_hits_before(s0, i, total) && s0.video[i]
                            == pixel_on();
                    assert(draw_hits(s0, w) && s0.video[w] == pixel_on());
                }
                if draw_collision(s0) {
                    let w = choose|i: int|
                        0 <= i < 2048 && #[trigger] draw_hits(s0, i) && s0.video[i] == pixel_on();
                    assert(draw_hits_before(s0, w, total) && s0.video[w] == pixel_on());
                }
            }
            assert(self@ == op_draw(s0));
        }
    }

    /// Skip the next instruction if the key named by the register's low
    /// four bits is pressed.
    pub fn OP_EX9E(&mut self)
        ensures
            final(self)@ == op_skip_key(old(self)@),
            final(self).rand_byte == old(self).rand_byte,
    {
        let vx = get_vx(self.opcode);
        let v = self.registers[vx];
        proof {
            assert(v & 0xF < 16) by (bit_vector);
        }
        let key = (v & 0xF) as usize;
        if self.keypad[key] != 0 {
            self.pc = self.pc.wrapping_add(2);
        }
    }

    /// Skip the next instruction if the key named by the register's low
    /// four bits is not pressed.
    pub fn OP_EXA1(&mut self)
        ensures
            final(self)@ == op_skip_nokey(old(self)@),
            final(self).rand_byte == old(self).rand_byte,
    {
        let vx = get_vx(self.opcode);
        let v = self.registers[vx];
        proof {
            assert(v & 0xF < 16) by (bit_vector);
        }
        let key = (v & 0xF) as usize;
        if self.keypad[key] == 0 {
            self.pc = self.pc.wrapping_add(2);
        }
    }

    /// Copy the delay timer into the register.
    pub fn OP_FX07(&mut self)
        ensures
            final(self)@ == op_ld_from_delay(old(self)@),
            final(self).rand_byte == old(self).rand_byte,
    {
        let vx = get_vx(self.opcode);
        self.registers[vx] = self.delay_timer;
    }

    /// Set the delay timer from the register.
    pub fn OP_FX15(&mut self)
        ensures
            final(self)@ == op_ld_delay(old(self)@),
            final(self).rand_byte == old(self).rand_byte,
    {
        let vx = get_vx(self.opcode);
        self.delay_timer = self.registers[vx];
    }

    /// Set the sound timer from the register.
    pub fn OP_FX18(&mut self)
        ensures
            final(self)@ == op_ld_sound(old(self)@),
            final(self).rand_byte == old(self).rand_byte,
    {
        let vx = get_vx(self.opcode);
        self.sound_timer = self.registers[vx];
    }

    /// Add the register to the index register, wrapping modulo 2^16.
    pub fn OP_FX1E(&mut self)
        ensures
            final(self)@ == op_add_index(old(self)@),
            final(self).rand_byte == old(self).rand_byte,
    {
        let vx = get_vx(self.opcode);
        self.index = self.index.wrapping_add(self.registers[vx] as u16);
    }

    /// Point the index register at the font glyph for the register's value.
    pub fn OP_FX29(&mut self)
        ensures
            final(self)@ == op_font(old(self)@),
            final(self).rand_byte == old(self).rand_byte,
    {
        let vx = get_vx(self.opcode);
        let digit = self.registers[vx];
        self.index = 0x50 + 5 * (digit as u16);
    }

    /// Wait for a key: with no key pressed, rewind the program counter
    /// over this instruction so the next cycle re-executes it; otherwise
    /// write the lowest pressed key's number into the register.
    pub fn OP_FX0A(&mut self)
        ensures
            final(self)@ == op_wait_key(old(self)@),
            final(self).rand_byte == old(self).rand_byte,
    {
        let vx = get_vx(self.opcode);
        let mut i: usize = 0;
        while i < 16
            invariant
                i <= 16,
                vx == x_of(old(self).opcode),
                vx < 16,
                *self == *old(self),
                forall|j: int| 0 <= j < i ==> old(self)@.keypad[j] == 0,
            decreases 16 - i,
        {
            if self.keypad[i] != 0 {
                self.registers[vx] = i as u8;
                proof {
                    let s = old(self)@;
                    assert(0 <= i < 16 && s.keypad[i as int] != 0 && (forall|j: int|
                        0 <= j < i ==> s.keypad[j] == 0));
                    assert(!no_key(s));
                    let k = first_key(s);
                    assert(0 <= k < 16 && s.keypad[k] != 0 && (forall|j: int|
                        0 <= j < k ==> s.keypad[j] == 0)) by {
                        assert(exists|c: int|
                            0 <= c < 16 && s.keypad[c] != 0 && (forall|j: int|
                                0 <= j < c ==> s.keypad[j] == 0));
                    }
                    assert(k == i as int) by {
                        if k < i as int {
                            assert(s.keypad[k] == 0);
                        }
                        if (i as int) < k {
                            assert(s.keypad[i as int] == 0);
                        }
                    }
                }
                return ;
            }
            i = i + 1;
        }
        self.pc = self.pc.wrapping_sub(2);
    }

    /// Store registers 0 through the first operand into memory at the
    /// index register.
    pub fn OP_FX55(&mut self)
        ensures
            final(self)@ == op_store_regs(old(self)@),
            final(self).rand_byte == old(self).rand_byte,
    {
        let vx = get_vx(self.opcode);
        let mut i: usize = 0;
        while i <= vx
            invariant
                i <= vx + 1,
                vx == x_of(old(self).opcode),
                vx < 16,
                self@ == (Machine {
                    memory: stored_regs(
                        old(self)@.memory,
                        old(self)@.registers,
                        old(self)@.index as int,
                        i - 1,
                    ),
                    ..old(self)@
                }),
                self.rand_byte == old(self).rand_byte,
                self.rand_gen == old(self).rand_gen,
            decreases vx + 1 - i,
        {
            let a = (self.index as usize + i) % 4096;
            self.memory[a] = self.registers[i];
            i = i + 1;
        }
    }

    /// Load registers 0 through the first operand from memory at the
    /// index register.
    pub fn OP_FX65(&mut self)
        ensures
            final(self)@ == op_load_regs(old(self)@),
            final(self).rand_byte == old(self).rand_byte,
    {
        let vx = get_vx(self.opcode);
        let mut i: usize = 0;
        proof {
            assert(Seq::new(
                16,
                |r: int|
                    if r < i {
                        old(self)@.memory[maddr(old(self)@.index + r)]
                    } else {
                        old(self)@.registers[r]
                    },
            ) =~= old(self)@.registers);
        }
        while i <= vx
            invariant
                i <= vx + 1,
                vx == x_of(old(self).opcode),
                vx < 16,
                self@ == (Machine {
                    registers: Seq::new(
                        16,
                        |r: int|
                            if r < i {
                                old(self)@.memory[maddr(old(self)@.index + r)]
                            } else {
                                old(self)@.registers[r]
                            },
                    ),
                    ..old(self)@
                }),
                self.rand_byte == old(self).rand_byte,
                self.rand_gen == old(self).rand_gen,
            decreases vx + 1 - i,
        {
            let a = (self.index as usize + i) % 4096;
            self.registers[i] = self.memory[a];
            i = i + 1;
            proof {
                assert(self@.registers =~= Seq::new(
                    16,
                    |r: int|
                        if r < i {
                            old(self)@.memory[maddr(old(self)@.index + r)]
                        } else {
                            old(self)@.registers[r]
                        },
                ));
            }
        }
        proof {
            assert(self@.registers =~= op_load_regs(old(self)@).registers);
        }
    }

    /// Write the register's three decimal digits to memory at the index
    /// register: hundreds byte first.
    pub fn OP_FX33(&mut self)
        ensures
            final(self)@ == op_bcd(old(self)@),
            final(self).rand_byte == old(self).rand_byte,
    {
        let vx = get_vx(self.opcode);
        let value = self.registers[vx];
        self.memory[(self.index as usize + 2) % 4096] = value % 10;
        self.memory[(self.index as usize + 1) % 4096] = (value / 10) % 10;
        self.memory[(self.index as usize) % 4096] = value / 100;
    }

    /// One fetch-decode-execute step: read the two bytes at the program
    /// counter big-endian into the opcode register, advance the program
    /// counter past them, then dispatch on the opcode. The whole cycle is
    /// `step` over the abstract machine; only the random-masking
    /// instruction depends on the drawn byte, so for every other opcode
    /// the outcome is the one `step` gives for any byte.
    pub fn Cycle(&mut self)
        ensures
            exists|b: u8| final(self)@ == step(old(self)@, b),
            !is_rand_op(fetched_op(old(self)@)) ==> final(self)@ == step(old(self)@, 0),
            final(self).rand_byte == old(self).rand_byte,
    {
        let hi_byte = self.memory[(self.pc as usize) % 4096];
        let lo_byte = self.memory[(self.pc as usize + 1) % 4096];
        self.opcode = ((hi_byte as u16) << 8u16) | (lo_byte as u16);
        self.pc = self.pc.wrapping_add(2);
        let ghost mid = self@;
        proof {
            assert(mid == after_fetch(old(self)@));
        }
        let op = self.opcode;
        let hi = op >> 12u16;
        proof {
            let o = op;
            assert(o >> 12u16 < 16) by (bit_vector);
        }
        match hi {
            0x0 => {
                let low = op & 0xF;
                if low == 0x0 {
                    self.OP_00E0();
                } else if low == 0xE {
                    self.OP_00EE();
                } else {
                    self.OP_NULL();
                }
            },
            0x1 => self.OP_1NNN(),
            0x2 => self.OP_2NNN(),
            0x3 => self.OP_3XKK(),
            0x4 => self.OP_4XKK(),
            0x5 => self.OP_5XY0(),
            0x6 => self.OP_6XKK(),
            0x7 => self.OP_7XKK(),
            0x8 => {
                let low = op & 0xF;
                if low == 0x0 {
                    self.OP_8XY0();
                } else if low == 0x1 {
                    self.OP_8XY1();
                } else if low == 0x2 {
                    self.OP_8XY2();
                } else if low == 0x3 {
                    self.OP_8XY3();
                } else if low == 0x4 {
                    self.OP_8XY4();
                } else if low == 0x5 {
                    self.OP_8XY5();
                } else if low == 0x6 {
                    self.OP_8XY6();
                } else if low == 0x7 {
                    self.OP_8XY7();
                } else if low == 0xE {
                    self.OP_8XYE();
                } else {
                    self.OP_NULL();
                }
            },
            0x9 => self.OP_9XY0(),
            0xA => self.OP_ANNN(),
            0xB => self.OP_BNNN(),
            0xC => self.OP_CXKK(),
            0xD => self.OP_DXYN(),
            0xE => {
                let low = op & 0xFF;
                if low == 0x9E {
                    self.OP_EX9E();
                } else if low == 0xA1 {
                    self.OP_EXA1();
                } else {
                    self.OP_NULL();
                }
            },
            0xF => {
                let low = op & 0xFF;
                if low == 0x07 {
                    self.OP_FX07();
                } else if low == 0x0A {
                    self.OP_FX0A();
                } else if low == 0x15 {
                    self.OP_FX15();
                } else if low == 0x18 {
                    self.OP_FX18();
                } else if low == 0x1E {
                    self.OP_FX1E();
                } else if low == 0x29 {
                    self.OP_FX29();
                } else if low == 0x33 {
                    self.OP_FX33();
                } else if low == 0x55 {
                    self.OP_FX55();
                } else if low == 0x65 {
                    self.OP_FX65();
                } else {
                    self.OP_NULL();
                }
            },
            _ => self.OP_NULL(),
        }
        proof {
            if is_rand_op(op) {
                let b = choose|b: u8| self@ == op_rand(mid, b);
                assert(self@ == exec_op(mid, b));
                assert(self@ == step(old(self)@, b));
            } else {
                assert(self@ == exec_op(mid, 0));
                assert(self@ == step(old(self)@, 0));
            }
        }
    }
}

} // verus!
