//! The CPU: a file of 32 general-purpose 64-bit registers, an instruction
//! pointer and the bus. Each step fetches one 64-bit instruction word at the
//! instruction pointer, extracts the operand sub-fields, dispatches on the
//! 16-bit opcode in the top bits, and mutates registers, memory or the
//! instruction pointer. The same 48 low bits are read either as three 8-bit
//! compact fields (register indices) or as three 16-bit extended fields
//! (addresses and immediates); the opcode alone decides the interpretation.

use vstd::prelude::*;

use crate::exceptions::Exception;
use crate::memory::{
    bus_read_spec, bus_write_spec, AVMBus, AVMDevice, MEMORY_SIZE, MEMORY_START_ADDRESS,
};

verus! {

/// What one executed instruction asks the driving loop to do next. The
/// terminal opcodes do not end the process here; they hand the exit code to
/// the driver, which keeps the core testable.
#[derive(Debug, PartialEq, Eq, Structural)]
pub enum Control {
    /// Keep fetching.
    Proceed,
    /// Stop; the program ended with this exit code.
    Halted(i32),
}

/// The 16-bit opcode in the top bits of an instruction word.
pub open spec fn op_of(instr: u64) -> u64 {
    instr >> 48
}

/// First compact field, bits [47:40]: usually a register index.
pub open spec fn cda1_of(instr: u64) -> u64 {
    ((instr >> 32) & 0x0000FF00) >> 8
}

/// Second compact field, bits [39:32].
pub open spec fn cda2_of(instr: u64) -> u64 {
    (instr >> 32) & 0x000000FF
}

/// Third compact field, bits [31:24].
pub open spec fn cda3_of(instr: u64) -> u64 {
    (instr >> 24) & 0x00000000FF
}

/// First extended field, bits [47:32], already shifted right.
pub open spec fn eda1_of(instr: u64) -> u64 {
    (instr >> 32) & 0x0000FFFF
}

/// Second extended field, bits [31:16], already shifted right.
pub open spec fn eda2_of(instr: u64) -> u64 {
    (instr >> 16) & 0x00000000FFFF
}

/// Third extended field, bits [15:0].
pub open spec fn eda3_of(instr: u64) -> u64 {
    instr & 0x000000000000FFFF
}

/// The value a set instruction writes: the extended fields combined by
/// bitwise or, the wire format's reconstruction rule. It only rebuilds a
/// wide value when at most one operand field is non-zero.
pub open spec fn set_value_of(instr: u64) -> u64 {
    eda2_of(instr) | eda3_of(instr) | (eda1_of(instr) & 0xFF)
}

/// The target of an unconditional jump: the three extended fields or-ed.
pub open spec fn jmp_target_of(instr: u64) -> u64 {
    eda1_of(instr) | eda2_of(instr) | eda3_of(instr)
}

/// The target of a conditional jump: the or-ed fields kept to 40 bits.
pub open spec fn jmc_target_of(instr: u64) -> u64 {
    (eda1_of(instr) | eda3_of(instr) | eda2_of(instr)) & 0x000FFFFFFFFF
}

/// The address a load or store uses: the second and third extended fields.
pub open spec fn mem_addr_of(instr: u64) -> u64 {
    eda2_of(instr) | eda3_of(instr)
}

/// Bounds of the extracted fields, all consequences of their masks.
proof fn lemma_field_bounds(instr: u64)
    by (bit_vector)
    ensures
        op_of(instr) <= 0xFFFF,
        cda1_of(instr) <= 0xFF,
        cda2_of(instr) <= 0xFF,
        cda3_of(instr) <= 0xFF,
        eda1_of(instr) <= 0xFFFF,
        eda2_of(instr) <= 0xFFFF,
        eda3_of(instr) <= 0xFFFF,
        cda1_of(instr) >> 4 <= 0xF,
        (cda1_of(instr) & 0x0F) <= 0xF,
        cda2_of(instr) >> 4 <= 0xF,
        set_value_of(instr) <= 0xFFFF,
        jmp_target_of(instr) <= 0xFFFF,
        jmc_target_of(instr) <= 0xFFFF,
        mem_addr_of(instr) <= 0xFFFF,
{
}

/// The mathematical state of the machine: the register file, the
/// instruction pointer and the memory contents.
#[verifier::ext_equal]
pub ghost struct CpuView {
    pub regs: Seq<u64>,
    pub ip: u64,
    pub mem: Seq<u8>,
}

/// Whether the register fields the opcode of `instr` reads or writes all lie
/// below 32, the size of the register file. The conditional jump packs its
/// two indices into nibbles, which are always in range.
pub open spec fn valid_operands(instr: u64) -> bool {
    let op = op_of(instr);
    if op == 0xCD00 {
        cda1_of(instr) < 32 && cda2_of(instr) < 32
    } else if op == 0xCD01 {
        cda1_of(instr) < 32
    } else if op == 0xCD02 || op == 0xCD03 || op == 0xCD04 || op == 0xCD05 {
        cda1_of(instr) < 32 && cda2_of(instr) < 32 && cda3_of(instr) < 32
    } else if op == 0xCD06 || op == 0xCD07 {
        cda1_of(instr) < 32
    } else {
        true
    }
}

/// Whether the instruction pointer can take the one-word advance that the
/// opcode of `instr` performs.
pub open spec fn ip_can_advance(pre_ip: u64, instr: u64) -> bool {
    let op = op_of(instr);
    if op == 0xCD00 || op == 0xCD01 || op == 0xCD02 || op == 0xCD03 || op == 0xCD04 || op == 0xCD05
        || op == 0xCD06 || op == 0xCD07 {
        pre_ip < u64::MAX
    } else {
        true
    }
}

/// Whether the conditional-jump comparison `cond` holds of `a` and `b`,
/// for the five defined condition codes.
pub open spec fn jmc_taken(cond: u64, a: u64, b: u64) -> bool {
    if cond == 0xA {
        a > b
    } else if cond == 0xB {
        a < b
    } else if cond == 0xC {
        a == b
    } else if cond == 0xD {
        a >= b
    } else {
        a <= b
    }
}

/// One fetch-free execution step: what executing the instruction word
/// `instr` in state `pre` yields — the next state and a control outcome, or
/// the fault. A fault never changes the state.
pub open spec fn cpu_step(pre: CpuView, instr: u64) -> Result<(CpuView, Control), Exception> {
    let op = op_of(instr);
    let cda1 = cda1_of(instr);
    let cda2 = cda2_of(instr);
    let cda3 = cda3_of(instr);
    let ip1 = (pre.ip + 1) as u64;
    if op == 0xCD00 {
        // [regFrom] move [regTo]
        Ok(
            (
                CpuView { regs: pre.regs.update(cda2 as int, pre.regs[cda1 as int]), ip: ip1, ..pre },
                Control::Proceed,
            ),
        )
    } else if op == 0xCD01 {
        // [reg] set [value]
        Ok(
            (
                CpuView { regs: pre.regs.update(cda1 as int, set_value_of(instr)), ip: ip1, ..pre },
                Control::Proceed,
            ),
        )
    } else if op == 0xCF00 {
        // jmp [address]
        Ok((CpuView { ip: jmp_target_of(instr), ..pre }, Control::Proceed))
    } else if op == 0xCF01 {
        // [reg1] jmc [cond] [reg2]
        let cond = cda1 >> 4;
        let r1 = cda1 & 0x0F;
        let r2 = cda2 >> 4;
        if cond == 0xA || cond == 0xB || cond == 0xC || cond == 0xD || cond == 0xE {
            if jmc_taken(cond, pre.regs[r1 as int], pre.regs[r2 as int]) {
                Ok((CpuView { ip: jmc_target_of(instr), ..pre }, Control::Proceed))
            } else {
                Ok((pre, Control::Proceed))
            }
        } else {
            Err(Exception::UnexpectedCondition(cond))
        }
    } else if op == 0xCD02 {
        // [reg1] add [reg2] [resReg]
        let v = vstd::wrapping::u64_specs::wrapping_add(
            pre.regs[cda1 as int],
            pre.regs[cda2 as int],
        );
        Ok((CpuView { regs: pre.regs.update(cda3 as int, v), ip: ip1, ..pre }, Control::Proceed))
    } else if op == 0xCD03 {
        // [reg1] sub [reg2] [resReg]
        let v = vstd::wrapping::u64_specs::wrapping_sub(
            pre.regs[cda1 as int],
            pre.regs[cda2 as int],
        );
        Ok((CpuView { regs: pre.regs.update(cda3 as int, v), ip: ip1, ..pre }, Control::Proceed))
    } else if op == 0xCD04 {
        // [reg1] mul [reg2] [resReg]
        let v = vstd::wrapping::u64_specs::wrapping_mul(
            pre.regs[cda1 as int],
            pre.regs[cda2 as int],
        );
        Ok((CpuView { regs: pre.regs.update(cda3 as int, v), ip: ip1, ..pre }, Control::Proceed))
    } else if op == 0xCD05 {
        // [reg1] div [reg2] [resReg]
        if pre.regs[cda2 as int] == 0 {
            Err(Exception::DivisionByZero)
        } else {
            let v = ((pre.regs[cda1 as int] as int) / (pre.regs[cda2 as int] as int)) as u64;
            Ok((CpuView { regs: pre.regs.update(cda3 as int, v), ip: ip1, ..pre }, Control::Proceed))
        }
    } else if op == 0xCD06 {
        // [address] move [reg]: load from memory
        match bus_read_spec(pre.mem, mem_addr_of(instr), cda2 as usize) {
            Ok(v) => Ok(
                (CpuView { regs: pre.regs.update(cda1 as int, v), ip: ip1, ..pre }, Control::Proceed),
            ),
            Err(_) => Err(Exception::IllegalSizeArgument(cda2 as usize)),
        }
    } else if op == 0xCD07 {
        // [reg] move [address]: store to memory
        match bus_write_spec(pre.mem, mem_addr_of(instr), pre.regs[cda1 as int], cda2 as usize) {
            Ok((m, _)) => Ok((CpuView { mem: m, ip: ip1, ..pre }, Control::Proceed)),
            Err(_) => Err(Exception::IllegalSizeArgument(cda2 as usize)),
        }
    } else if op == 0xFFFF {
        // halt
        Ok((pre, Control::Halted(0)))
    } else if op == 0xFFFA {
        // exit [code] / quit [code]
        Ok((pre, Control::Halted(cda1 as i32)))
    } else {
        Err(Exception::UnexpectedOpcode(op))
    }
}

/// The CPU of the machine.
pub struct AVMCpu {
    bus: AVMBus,
    registers: Vec<u64>,
    ip: u64,
}

impl View for AVMCpu {
    type V = CpuView;

    closed spec fn view(&self) -> CpuView {
        CpuView { regs: self.registers@, ip: self.ip, mem: self.bus@ }
    }
}

impl AVMCpu {
    /// The register file always holds exactly 32 slots.
    pub open spec fn wf(&self) -> bool {
        self@.regs.len() == 32
    }

    /// Creates the CPU: all registers zero but 12 and 13, which hold the top
    /// of the memory window as stack base and stack pointer by convention;
    /// the instruction pointer starts at the window's base; memory is zero.
    pub fn new() -> (c: AVMCpu)
        ensures
            c.wf(),
            c@.ip == MEMORY_START_ADDRESS,
            c@.regs[12] == MEMORY_START_ADDRESS + MEMORY_SIZE,
            c@.regs[13] == MEMORY_START_ADDRESS + MEMORY_SIZE,
            forall|i: int| 0 <= i < 32 && i != 12 && i != 13 ==> c@.regs[i] == 0u64,
            c@.mem.len() == MEMORY_SIZE,
            forall|i: int| 0 <= i < MEMORY_SIZE ==> c@.mem[i] == 0u8,
    {
        let mut registers: Vec<u64> = Vec::new();
        let mut i: usize = 0;
        while i < 32
            invariant
                i <= 32,
                registers@.len() == i,
                forall|j: int| 0 <= j < i ==> registers@[j] == 0u64,
            decreases 32 - i,
        {
            registers.push(0);
            i = i + 1;
        }
        registers[12] = MEMORY_START_ADDRESS + MEMORY_SIZE;
        registers[13] = MEMORY_START_ADDRESS + MEMORY_SIZE;
        AVMCpu { bus: AVMBus::new(), registers, ip: MEMORY_START_ADDRESS }
    }

    /// The value of one register.
    pub fn register(&self, index: usize) -> (r: u64)
        requires
            self.wf(),
            index < 32,
        ensures
            r == self@.regs[index as int],
    {
        self.registers[index]
    }

    /// The current instruction pointer.
    pub fn ip(&self) -> (r: u64)
        ensures
            r == self@.ip,
    {
        self.ip
    }

    /// Places the raw program bytes at the base of the memory window, the
    /// form the loader hands a bytecode stream to the machine in.
    pub fn load_program(&mut self, program: &Vec<u8>) -> (r: ())
        requires
            program@.len() <= MEMORY_SIZE,
        ensures
            final(self)@.regs == old(self)@.regs,
            final(self)@.ip == old(self)@.ip,
            final(self)@.mem.len() == old(self)@.mem.len(),
            forall|i: int|
                0 <= i < old(self)@.mem.len() ==> final(self)@.mem[i] == (if i < program@.len() {
                    program@[i]
                } else {
                    old(self)@.mem[i]
                }),
    {
        let mut k: usize = 0;
        while k < program.len()
            invariant
                k <= program@.len(),
                program@.len() <= MEMORY_SIZE,
                self@.regs == old(self)@.regs,
                self@.ip == old(self)@.ip,
                self@.mem.len() == old(self)@.mem.len(),
                forall|i: int|
                    0 <= i < old(self)@.mem.len() ==> self@.mem[i] == (if i < k {
                        program@[i]
                    } else {
                        old(self)@.mem[i]
                    }),
            decreases program@.len() - k,
        {
            let b = program[k];
            proof {
                lemma_byte_value(b as u64);
            }
            let _ = self.bus.write(MEMORY_START_ADDRESS + k as u64, b as u64, 8);
            k = k + 1;
        }
    }

    /// Fetches the next instruction: a 64-bit read over the bus at the
    /// instruction pointer. Any failed read is reported as an instruction
    /// access fault at that address, not as the raw bus fault.
    pub fn load_instr(&mut self) -> (r: Result<u64, Exception>)
        ensures
            final(self)@ == old(self)@,
            r == (match bus_read_spec(old(self)@.mem, old(self)@.ip, 64) {
                Ok(v) => Ok::<u64, Exception>(v),
                Err(_) => Err::<u64, Exception>(
                    Exception::InstructionAccessFaultOnAddress(old(self)@.ip),
                ),
            }),
    {
        match self.bus.read(self.ip, 64) {
            Ok(instr) => Ok(instr),
            Err(_) => Err(Exception::InstructionAccessFaultOnAddress(self.ip)),
        }
    }

    /// Decodes and executes one instruction word: exactly the step that
    /// `cpu_step` describes. A fault leaves registers, memory and the
    /// instruction pointer untouched.
    pub fn execute_instr(&mut self, instr: u64) -> (r: Result<Control, Exception>)
        requires
            old(self).wf(),
            valid_operands(instr),
            ip_can_advance(old(self)@.ip, instr),
        ensures
            final(self).wf(),
            (match cpu_step(old(self)@, instr) {
                Ok((post, ctl)) => final(self)@ == post && r == Ok::<Control, Exception>(ctl),
                Err(e) => final(self)@ == old(self)@ && r == Err::<Control, Exception>(e),
            }),
    {
        proof {
            lemma_field_bounds(instr);
        }
        let operation = instr >> 48;
        let cda1 = ((instr >> 32) & 0x0000FF00) >> 8;
        let cda2 = (instr >> 32) & 0x000000FF;
        let cda3 = (instr >> 24) & 0x00000000FF;
        let eda1 = (instr >> 32) & 0x0000FFFF;
        let eda2 = (instr >> 16) & 0x00000000FFFF;
        let eda3 = instr & 0x000000000000FFFF;
        match operation {
            0xCD00 => {
                // [regFrom] move [regTo]
                let reg_from = cda1 as usize;
                let reg_to = cda2 as usize;
                let v = self.registers[reg_from];
                self.registers[reg_to] = v;
                self.ip = self.ip + 1;
                Ok(Control::Proceed)
            },
            0xCD01 => {
                // [reg] set [value]
                let reg = cda1 as usize;
                let value = eda2 | eda3 | (eda1 & 0xFF);
                self.registers[reg] = value;
                self.ip = self.ip + 1;
                Ok(Control::Proceed)
            },
            0xCF00 => {
                // jmp [address]
                let address = eda1 | eda2 | eda3;
                self.ip = address;
                Ok(Control::Proceed)
            },
            0xCF01 => {
                // [reg1] jmc [cond] [reg2]
                let address = (eda1 | eda3 | eda2) & 0x000FFFFFFFFF;
                let condition = cda1 >> 4;
                let reg1 = (cda1 & 0x0F) as usize;
                let reg2 = (cda2 >> 4) as usize;
                match condition {
                    0xA => {
                        if self.registers[reg1] > self.registers[reg2] {
                            self.ip = address;
                            return Ok(Control::Proceed);
                        }
                        Ok(Control::Proceed)
                    },
                    0xB => {
                        if self.registers[reg1] < self.registers[reg2] {
                            self.ip = address;
                            return Ok(Control::Proceed);
                        }
                        Ok(Control::Proceed)
                    },
                    0xC => {
                        if self.registers[reg1] == self.registers[reg2] {
                            self.ip = address;
                            return Ok(Control::Proceed);
                        }
                        Ok(Control::Proceed)
                    },
                    0xD => {
                        if self.registers[reg1] >= self.registers[reg2] {
                            self.ip = address;
                            return Ok(Control::Proceed);
                        }
                        Ok(Control::Proceed)
                    },
                    0xE => {
                        if self.registers[reg1] <= self.registers[reg2] {
                            self.ip = address;
                            return Ok(Control::Proceed);
                        }
                        Ok(Control::Proceed)
                    },
                    _ => Err(Exception::UnexpectedCondition(condition)),
                }
            },
            0xCD02 => {
                // [reg1] add [reg2] [resReg]
                let reg1 = cda1 as usize;
                let reg2 = cda2 as usize;
                let res_reg = cda3 as usize;
                let v = self.registers[reg1].wrapping_add(self.registers[reg2]);
                self.registers[res_reg] = v;
                self.ip = self.ip + 1;
                Ok(Control::Proceed)
            },
            0xCD03 => {
                // [reg1] sub [reg2] [resReg]
                let reg1 = cda1 as usize;
                let reg2 = cda2 as usize;
                let res_reg = cda3 as usize;
                let v = self.registers[reg1].wrapping_sub(self.registers[reg2]);
                self.registers[res_reg] = v;
                self.ip = self.ip + 1;
                Ok(Control::Proceed)
            },
            0xCD04 => {
                // [reg1] mul [reg2] [resReg]
                let reg1 = cda1 as usize;
                let reg2 = cda2 as usize;
                let res_reg = cda3 as usize;
                let v = self.registers[reg1].wrapping_mul(self.registers[reg2]);
                self.registers[res_reg] = v;
                self.ip = self.ip + 1;
                Ok(Control::Proceed)
            },
            0xCD05 => {
                // [reg1] div [reg2] [resReg]
                let reg1 = cda1 as usize;
                let reg2 = cda2 as usize;
                let res_reg = cda3 as usize;
                if self.registers[reg2] == 0 {
                    return Err(Exception::DivisionByZero);
                }
                let v = self.registers[reg1] / self.registers[reg2];
                self.registers[res_reg] = v;
                self.ip = self.ip + 1;
                Ok(Control::Proceed)
            },
            0xCD06 => {
                // [address] move [reg]: load from memory
                let address = eda2 | eda3;
                let reg = cda1 as usize;
                let size = cda2 as usize;
                if let Ok(val) = self.bus.read(address, size) {
                    self.registers[reg] = val;
                    self.ip = self.ip + 1;
                    Ok(Control::Proceed)
                } else {
                    Err(Exception::IllegalSizeArgument(size))
                }
            },
            0xCD07 => {
                // [reg] move [address]: store to memory
                let address = eda2 | eda3;
                let reg = cda1 as usize;
                let size = cda2 as usize;
                let v = self.registers[reg];
                if let Ok(_) = self.bus.write(address, v, size) {
                    self.ip = self.ip + 1;
                    Ok(Control::Proceed)
                } else {
                    Err(Exception::IllegalSizeArgument(size))
                }
            },
            0xFFFF => {
                // halt
                Ok(Control::Halted(0))
            },
            0xFFFA => {
                // exit [code] / quit [code]
                let code = cda1 as i32;
                Ok(Control::Halted(code))
            },
            _ => Err(Exception::UnexpectedOpcode(operation)),
        }
    }
}

/// A byte-sized value survives its own low-byte extraction.
proof fn lemma_byte_value(v: u64)
    requires
        v < 256,
    ensures
        crate::memory::le_byte(v, 0) as u64 == v,
{
    assert(((v >> 0u64) & 0xFF) as u8 as u64 == v) by (bit_vector)
        requires
            v < 256,
    ;
}

/// The wrapping arithmetic law: an add, sub or mul instruction with in-range
/// register fields never faults; its destination register takes the operand
/// registers' sum, difference or product reduced modulo `2^64`; every other
/// register, the memory, and the control outcome are untouched apart from
/// the one-word advance of the instruction pointer.
pub proof fn lemma_arith_wraps(pre: CpuView, instr: u64)
    requires
        pre.regs.len() == 32,
        op_of(instr) == 0xCD02 || op_of(instr) == 0xCD03 || op_of(instr) == 0xCD04,
        valid_operands(instr),
    ensures
        cpu_step(pre, instr) is Ok,
        ({
            let (post, ctl) = cpu_step(pre, instr)->Ok_0;
            let a = pre.regs[cda1_of(instr) as int];
            let b = pre.regs[cda2_of(instr) as int];
            &&& ctl == Control::Proceed
            &&& post.regs[cda3_of(instr) as int] as int == (if op_of(instr) == 0xCD02 {
                (a + b) % 0x10000000000000000
            } else if op_of(instr) == 0xCD03 {
                (a - b) % 0x10000000000000000
            } else {
                (a * b) % 0x10000000000000000
            })
            &&& forall|i: int|
                0 <= i < 32 && i != cda3_of(instr) ==> post.regs[i] == pre.regs[i]
            &&& post.ip == (pre.ip + 1) as u64
            &&& post.mem == pre.mem
        }),
{
    let a = pre.regs[cda1_of(instr) as int];
    let b = pre.regs[cda2_of(instr) as int];
    if op_of(instr) == 0xCD02 {
        let v = vstd::wrapping::u64_specs::wrapping_add(a, b);
        assert(v as int == (a + b) % 0x10000000000000000) by (nonlinear_arith)
            requires
                a <= u64::MAX && b <= u64::MAX && a >= 0 && b >= 0 && (v == if a + b > u64::MAX {
                    (a + b - 0x10000000000000000) as u64
                } else {
                    (a + b) as u64
                }),
        ;
    } else if op_of(instr) == 0xCD03 {
        let v = vstd::wrapping::u64_specs::wrapping_sub(a, b);
        assert(v as int == (a - b) % 0x10000000000000000) by (nonlinear_arith)
            requires
                a <= u64::MAX && b <= u64::MAX && a >= 0 && b >= 0 && (v == if a - b < 0 {
                    (a - b + 0x10000000000000000) as u64
                } else {
                    (a - b) as u64
                }),
        ;
    } else {
        let v = vstd::wrapping::u64_specs::wrapping_mul(a, b);
        assert(v as int == (a * b) % 0x10000000000000000) by (nonlinear_arith)
            requires
                a >= 0 && b >= 0 && v == ((a as nat * b as nat) % 0x10000000000000000nat) as u64,
        ;
    }
}

/// The conditional-jump law for the equality condition `0xC`: the step
/// succeeds, control transfers to the jump target exactly when the two
/// selected registers hold equal values, and the instruction pointer is
/// otherwise unchanged — there is no advance either way. Registers and
/// memory are never touched.
pub proof fn lemma_jmc_equal_condition(pre: CpuView, instr: u64)
    requires
        pre.regs.len() == 32,
        op_of(instr) == 0xCF01,
        cda1_of(instr) >> 4 == 0xC,
    ensures
        cpu_step(pre, instr) is Ok,
        ({
            let (post, ctl) = cpu_step(pre, instr)->Ok_0;
            let a = pre.regs[(cda1_of(instr) & 0x0F) as int];
            let b = pre.regs[(cda2_of(instr) >> 4) as int];
            &&& ctl == Control::Proceed
            &&& post.ip == (if a == b {
                jmc_target_of(instr)
            } else {
                pre.ip
            })
            &&& post.regs == pre.regs
            &&& post.mem == pre.mem
        }),
{
}

/// The conditional-jump law for undefined conditions: a condition nibble
/// outside `0xA ..= 0xE` faults with that nibble and changes nothing.
pub proof fn lemma_jmc_undefined_condition(pre: CpuView, instr: u64)
    requires
        op_of(instr) == 0xCF01,
        !(0xA <= cda1_of(instr) >> 4 <= 0xE),
    ensures
        cpu_step(pre, instr) == Err::<(CpuView, Control), Exception>(
            Exception::UnexpectedCondition(cda1_of(instr) >> 4),
        ),
{
}

} // verus!
