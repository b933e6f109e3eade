//! The abstract state of the assembly writer.
use vstd::prelude::*;

verus! {

/// What a writer has: file and function names, the counters of its
/// internal labels, and the assembly lines written so far.
pub struct WriterModel {
    pub file: Seq<char>,
    pub function: Seq<char>,
    pub labels: Map<Seq<char>, u32>,
    pub lines: Seq<Seq<char>>,
}

/// `m` with `ls` written.
pub open spec fn emit(m: WriterModel, ls: Seq<Seq<char>>) -> WriterModel {
    WriterModel { lines: m.lines + ls, ..m }
}

} // verus!
