use vstd::prelude::*;
use vstd::string::*;
use vstd::utf8::*;

verus! {

pub const INTRUCTION_MOV: u8 = 0x01;
pub const INTRUCTION_CLR: u8 = 0x02;
pub const INTRUCTION_CLRS: u8 = 0x03;
pub const INTRUCTION_ALLOC: u8 = 0x04;
pub const INTRUCTION_ARALC: u8 = 0x05;
pub const INTRUCTION_LOAD: u8 = 0x06;
pub const INTRUCTION_FREE: u8 = 0x07;
pub const INTRUCTION_OWN: u8 = 0x08;
pub const INTRUCTION_ADD: u8 = 0x09;
pub const INTRUCTION_SUB: u8 = 0x0A;
pub const INTRUCTION_MUL: u8 = 0x0B;
pub const INTRUCTION_DIV: u8 = 0x0C;
pub const INTRUCTION_REM: u8 = 0x0D;
pub const INTRUCTION_ADD_MUT: u8 = 0x0E;
pub const INTRUCTION_SUB_MUT: u8 = 0x0F;
pub const INTRUCTION_MUL_MUT: u8 = 0x10;
pub const INTRUCTION_DIV_MUT: u8 = 0x11;
pub const INTRUCTION_REM_MUT: u8 = 0x12;
pub const INTRUCTION_AND: u8 = 0x13;
pub const INTRUCTION_OR: u8 = 0x14;
pub const INTRUCTION_XOR: u8 = 0x15;
pub const INTRUCTION_AND_MUT: u8 = 0x16;
pub const INTRUCTION_OR_MUT: u8 = 0x17;
pub const INTRUCTION_XOR_MUT: u8 = 0x18;
pub const INTRUCTION_CMP: u8 = 0x19;
pub const INTRUCTION_SHL: u8 = 0x1A;
pub const INTRUCTION_SHR: u8 = 0x1B;
pub const INTRUCTION_SHL_MUT: u8 = 0x1C;
pub const INTRUCTION_SHR_MUT: u8 = 0x1D;
pub const INTRUCTION_JMP: u8 = 0x1E;
pub const INTRUCTION_JZ: u8 = 0x1F;
pub const INTRUCTION_JNZ: u8 = 0x20;
pub const INTRUCTION_RET: u8 = 0x21;
pub const INTRUCTION_LIBCALL: u8 = 0x22;
pub const INTRUCTION_FORK: u8 = 0x23;
pub const INTRUCTION_JOIN: u8 = 0x24;
pub const INTRUCTION_YIELD: u8 = 0x25;
pub const INTRUCTION_AWAIT: u8 = 0x26;

/// The opcode of an instruction mnemonic, if it names one.
pub open spec fn instruction_code(s: Seq<char>) -> Option<u8> {
    if s == "mov"@ {
        Some(INTRUCTION_MOV)
    } else if s == "clr"@ {
        Some(INTRUCTION_CLR)
    } else if s == "clrs"@ {
        Some(INTRUCTION_CLRS)
    } else if s == "alloc"@ {
        Some(INTRUCTION_ALLOC)
    } else if s == "aralc"@ {
        Some(INTRUCTION_ARALC)
    } else if s == "load"@ {
        Some(INTRUCTION_LOAD)
    } else if s == "free"@ {
        Some(INTRUCTION_FREE)
    } else if s == "own"@ {
        Some(INTRUCTION_OWN)
    } else if s == "add"@ {
        Some(INTRUCTION_ADD)
    } else if s == "sub"@ {
        Some(INTRUCTION_SUB)
    } else if s == "mul"@ {
        Some(INTRUCTION_MUL)
    } else if s == "div"@ {
        Some(INTRUCTION_DIV)
    } else if s == "rem"@ {
        Some(INTRUCTION_REM)
    } else if s == "add_mut"@ {
        Some(INTRUCTION_ADD_MUT)
    } else if s == "sub_mut"@ {
        Some(INTRUCTION_SUB_MUT)
    } else if s == "mul_mut"@ {
        Some(INTRUCTION_MUL_MUT)
    } else if s == "div_mut"@ {
        Some(INTRUCTION_DIV_MUT)
    } else if s == "rem_mut"@ {
        Some(INTRUCTION_REM_MUT)
    } else if s == "and"@ {
        Some(INTRUCTION_AND)
    } else if s == "or"@ {
        Some(INTRUCTION_OR)
    } else if s == "xor"@ {
        Some(INTRUCTION_XOR)
    } else if s == "and_mut"@ {
        Some(INTRUCTION_AND_MUT)
    } else if s == "or_mut"@ {
        Some(INTRUCTION_OR_MUT)
    } else if s == "xor_mut"@ {
        Some(INTRUCTION_XOR_MUT)
    } else if s == "cmp"@ {
        Some(INTRUCTION_CMP)
    } else if s == "shl"@ {
        Some(INTRUCTION_SHL)
    } else if s == "shr"@ {
        Some(INTRUCTION_SHR)
    } else if s == "shl_mut"@ {
        Some(INTRUCTION_SHL_MUT)
    } else if s == "shr_mut"@ {
        Some(INTRUCTION_SHR_MUT)
    } else if s == "jmp"@ {
        Some(INTRUCTION_JMP)
    } else if s == "jz"@ {
        Some(INTRUCTION_JZ)
    } else if s == "jnz"@ {
        Some(INTRUCTION_JNZ)
    } else if s == "ret"@ {
        Some(INTRUCTION_RET)
    } else if s == "libcall"@ {
        Some(INTRUCTION_LIBCALL)
    } else if s == "fork"@ {
        Some(INTRUCTION_FORK)
    } else if s == "join"@ {
        Some(INTRUCTION_JOIN)
    } else if s == "yield"@ {
        Some(INTRUCTION_YIELD)
    } else if s == "await"@ {
        Some(INTRUCTION_AWAIT)
    } else {
        None
    }
}

/// Whether two strings hold the same text, compared byte by byte.
fn same_text(a: &str, b: &str) -> (r: bool)
    ensures
        r == (a@ == b@),
{
    let x = a.as_bytes();
    let y = b.as_bytes();
    proof {
        encode_utf8_decode_utf8(a@);
        encode_utf8_decode_utf8(b@);
        assert(x@ == encode_utf8(a@));
        assert(y@ == encode_utf8(b@));
    }
    if x.len() != y.len() {
        return false;
    }
    let mut i: usize = 0;
    while i < x.len()
        invariant
            x@ == encode_utf8(a@),
            y@ == encode_utf8(b@),
            decode_utf8(x@) == a@,
            decode_utf8(y@) == b@,
            x@.len() == y@.len(),
            i <= x@.len(),
            x@.subrange(0, i as int) == y@.subrange(0, i as int),
        decreases x@.len() - i,
    {
        if x[i] != y[i] {
            assert(x@[i as int] != y@[i as int]);
            assert(x@ != y@);
            return false;
        }
        i = i + 1;
        assert(x@.subrange(0, i as int) =~= y@.subrange(0, i as int));
    }
    assert(x@ =~= x@.subrange(0, i as int));
    assert(y@ =~= y@.subrange(0, i as int));
    true
}

/// Reads an instruction mnemonic (`"mov"`, `"add_mut"`, ...) and returns its
/// opcode, or `None` for any other text.
pub fn parse_instrution(inst: &str) -> (r: Option<u8>)
    ensures
        r == instruction_code(inst@),
{
    if same_text(inst, "mov") {
        Some(INTRUCTION_MOV)
    } else if same_text(inst, "clr") {
        Some(INTRUCTION_CLR)
    } else if same_text(inst, "clrs") {
        Some(INTRUCTION_CLRS)
    } else if same_text(inst, "alloc") {
        Some(INTRUCTION_ALLOC)
    } else if same_text(inst, "aralc") {
        Some(INTRUCTION_ARALC)
    } else if same_text(inst, "load") {
        Some(INTRUCTION_LOAD)
    } else if same_text(inst, "free") {
        Some(INTRUCTION_FREE)
    } else if same_text(inst, "own") {
        Some(INTRUCTION_OWN)
    } else if same_text(inst, "add") {
        Some(INTRUCTION_ADD)
    } else if same_text(inst, "sub") {
        Some(INTRUCTION_SUB)
    } else if same_text(inst, "mul") {
        Some(INTRUCTION_MUL)
    } else if same_text(inst, "div") {
        Some(INTRUCTION_DIV)
    } else if same_text(inst, "rem") {
        Some(INTRUCTION_REM)
    } else if same_text(inst, "add_mut") {
        Some(INTRUCTION_ADD_MUT)
    } else if same_text(inst, "sub_mut") {
        Some(INTRUCTION_SUB_MUT)
    } else if same_text(inst, "mul_mut") {
        Some(INTRUCTION_MUL_MUT)
    } else if same_text(inst, "div_mut") {
        Some(INTRUCTION_DIV_MUT)
    } else if same_text(inst, "rem_mut") {
        Some(INTRUCTION_REM_MUT)
    } else if same_text(inst, "and") {
        Some(INTRUCTION_AND)
    } else if same_text(inst, "or") {
        Some(INTRUCTION_OR)
    } else if same_text(inst, "xor") {
        Some(INTRUCTION_XOR)
    } else if same_text(inst, "and_mut") {
        Some(INTRUCTION_AND_MUT)
    } else if same_text(inst, "or_mut") {
        Some(INTRUCTION_OR_MUT)
    } else if same_text(inst, "xor_mut") {
        Some(INTRUCTION_XOR_MUT)
    } else if same_text(inst, "cmp") {
        Some(INTRUCTION_CMP)
    } else if same_text(inst, "shl") {
        Some(INTRUCTION_SHL)
    } else if same_text(inst, "shr") {
        Some(INTRUCTION_SHR)
    } else if same_text(inst, "shl_mut") {
        Some(INTRUCTION_SHL_MUT)
    } else if same_text(inst, "shr_mut") {
        Some(INTRUCTION_SHR_MUT)
    } else if same_text(inst, "jmp") {
        Some(INTRUCTION_JMP)
    } else if same_text(inst, "jz") {
        Some(INTRUCTION_JZ)
    } else if same_text(inst, "jnz") {
        Some(INTRUCTION_JNZ)
    } else if same_text(inst, "ret") {
        Some(INTRUCTION_RET)
    } else if same_text(inst, "libcall") {
        Some(INTRUCTION_LIBCALL)
    } else if same_text(inst, "fork") {
        Some(INTRUCTION_FORK)
    } else if same_text(inst, "join") {
        Some(INTRUCTION_JOIN)
    } else if same_text(inst, "yield") {
        Some(INTRUCTION_YIELD)
    } else if same_text(inst, "await") {
        Some(INTRUCTION_AWAIT)
    } else {
        None
    }
}

} // verus!
