//! The program container: a table of programs in front of a code blob.
//!
//! The container starts with the number of programs, then holds a start and
//! an end offset for each program, then the blob that the offsets index.
//! Every number is a little-endian word.

use vstd::prelude::*;
use vstd::slice::{slice_subrange, slice_to_vec};
use crate::vm::wire::{le_u64, word_at};

verus! {

/// A code blob and the programs in it, each by its start and end offset.
pub struct DactorBase {
    pub actor_code: Vec<u8>,
    pub programs: Vec<(usize, usize)>,
}

/// Why a container could not be read.
#[derive(Debug, PartialEq, Eq, Clone, Copy, Structural)]
pub enum ParseDactorError {
    /// The container ends before the program table does.
    UnexpectedEOF,
    /// A program starts or ends at this offset, which lies beyond the blob.
    ProgramOutOfRange(usize),
}

/// The number of programs that a container announces.
pub open spec fn program_count(bytes: Seq<u8>) -> int {
    le_u64(bytes.subrange(0, 8)) as int
}

/// Where the blob starts in a container.
pub open spec fn blob_start(bytes: Seq<u8>) -> int {
    8 + 16 * program_count(bytes)
}

/// Whether a container ends before its program table does.
pub open spec fn truncated(bytes: Seq<u8>) -> bool {
    bytes.len() < 8 || bytes.len() < blob_start(bytes)
}

/// The code blob of a container.
pub open spec fn blob(bytes: Seq<u8>) -> Seq<u8> {
    bytes.skip(blob_start(bytes))
}

/// The start offset of program `i`.
pub open spec fn program_start(bytes: Seq<u8>, i: int) -> u64 {
    le_u64(bytes.subrange(8 + 16 * i, 16 + 16 * i))
}

/// The end offset of program `i`.
pub open spec fn program_end(bytes: Seq<u8>, i: int) -> u64 {
    le_u64(bytes.subrange(16 + 16 * i, 24 + 16 * i))
}

/// Whether program `i` starts or ends beyond the blob.
pub open spec fn out_of_range(bytes: Seq<u8>, i: int) -> bool {
    program_start(bytes, i) > blob(bytes).len() || program_end(bytes, i) > blob(bytes).len()
}

/// The offset of program `i` that lies beyond the blob: its start if that
/// does, else its end.
pub open spec fn offending_offset(bytes: Seq<u8>, i: int) -> u64 {
    if program_start(bytes, i) > blob(bytes).len() {
        program_start(bytes, i)
    } else {
        program_end(bytes, i)
    }
}

/// Whether program `i` is the first that starts or ends beyond the blob.
pub open spec fn first_out_of_range(bytes: Seq<u8>, i: int) -> bool {
    &&& 0 <= i < program_count(bytes)
    &&& out_of_range(bytes, i)
    &&& forall|j: int| 0 <= j < i ==> !#[trigger] out_of_range(bytes, j)
}

impl DactorBase {
    /// Every program lies within the blob.
    pub open spec fn wf(&self) -> bool {
        forall|i: int|
            0 <= i < self.programs@.len() ==> (#[trigger] self.programs@[i]).0
                <= self.actor_code@.len() && self.programs@[i].1 <= self.actor_code@.len()
    }

    /// Whether this is what the container `bytes` holds.
    pub open spec fn holds(&self, bytes: Seq<u8>) -> bool {
        &&& self.actor_code@ == blob(bytes)
        &&& self.programs@.len() == program_count(bytes)
        &&& forall|i: int|
            0 <= i < program_count(bytes) ==> (#[trigger] self.programs@[i]).0 == program_start(
                bytes,
                i,
            ) && self.programs@[i].1 == program_end(bytes, i)
    }

    /// Reads a container.
    ///
    /// Fails with `UnexpectedEOF` where the container ends before its program
    /// table does, and otherwise with `ProgramOutOfRange` where a program
    /// starts or ends beyond the blob, naming the first such offset. That a
    /// program starts before it ends is not asked.
    pub fn parse(inp: &[u8]) -> (parsed: Result<DactorBase, ParseDactorError>)
        ensures
            match parsed {
                Ok(base) => {
                    &&& !truncated(inp@)
                    &&& forall|i: int|
                        0 <= i < program_count(inp@) ==> !#[trigger] out_of_range(inp@, i)
                    &&& base.holds(inp@)
                    &&& base.wf()
                },
                Err(ParseDactorError::UnexpectedEOF) => truncated(inp@),
                Err(ParseDactorError::ProgramOutOfRange(offset)) => {
                    &&& !truncated(inp@)
                    &&& exists|i: int| #[trigger]
                        first_out_of_range(inp@, i) && offset == #[verifier::truncate]
                        (offending_offset(inp@, i) as usize)
                },
            },
    {
        let mut rest: &[u8] = inp;
        let n_programs: u64 = read_u64(&mut rest)?;
        if ((rest.len() / 16) as u64) < n_programs {
            return Err(ParseDactorError::UnexpectedEOF);
        }
        let table_len: usize = 16 * (n_programs as usize);
        let blob_len: usize = rest.len() - table_len;
        let mut programs: Vec<(usize, usize)> = Vec::new();
        let mut i: u64 = 0;
        while i < n_programs
            invariant
                !truncated(inp@),
                n_programs == program_count(inp@),
                blob_len == blob(inp@).len(),
                i <= n_programs,
                rest@ == inp@.skip(8 + 16 * i),
                programs@.len() == i,
                forall|j: int| 0 <= j < i ==> !#[trigger] out_of_range(inp@, j),
                forall|j: int|
                    0 <= j < i ==> (#[trigger] programs@[j]).0 == program_start(inp@, j)
                        && programs@[j].1 == program_end(inp@, j) && !out_of_range(inp@, j),
            decreases n_programs - i,
        {
            let ghost before = rest@;
            let prog_start: u64 = match read_u64(&mut rest) {
                Ok(word) => word,
                Err(e) => {
                    return Err(e);
                },
            };
            let prog_end: u64 = match read_u64(&mut rest) {
                Ok(word) => word,
                Err(e) => {
                    return Err(e);
                },
            };
            proof {
                assert(before.subrange(0, 8) =~= inp@.subrange(8 + 16 * i, 16 + 16 * i));
                assert(before.skip(8).subrange(0, 8) =~= inp@.subrange(16 + 16 * i, 24 + 16 * i));
                assert(rest@ =~= inp@.skip(8 + 16 * (i + 1)));
            }
            if prog_start > blob_len as u64 {
                assert(first_out_of_range(inp@, i as int));
                return Err(
                    ParseDactorError::ProgramOutOfRange(#[verifier::truncate] (prog_start as usize)),
                );
            }
            if prog_end > blob_len as u64 {
                assert(first_out_of_range(inp@, i as int));
                return Err(
                    ParseDactorError::ProgramOutOfRange(#[verifier::truncate] (prog_end as usize)),
                );
            }
            programs.push((prog_start as usize, prog_end as usize));
            i += 1;
        }
        assert(rest@ =~= blob(inp@));
        Ok(DactorBase { actor_code: slice_to_vec(rest), programs })
    }
}

/// Takes a word off the front of `inp`, if `inp` holds eight bytes.
pub fn read_u64(inp: &mut &[u8]) -> (word: Result<u64, ParseDactorError>)
    ensures
        old(inp)@.len() < 8 ==> word == Err::<u64, ParseDactorError>(
            ParseDactorError::UnexpectedEOF,
        ) && final(inp)@ == old(inp)@,
        old(inp)@.len() >= 8 ==> word == Ok::<u64, ParseDactorError>(
            le_u64(old(inp)@.subrange(0, 8)),
        ) && final(inp)@ == old(inp)@.skip(8),
{
    if inp.len() < 8 {
        return Err(ParseDactorError::UnexpectedEOF);
    }
    let value: u64 = word_at(*inp, 0);
    *inp = slice_subrange(*inp, 8, inp.len());
    assert(inp@ =~= old(inp)@.skip(8));
    Ok(value)
}

} // verus!
