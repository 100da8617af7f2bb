//! The functions and programs that an object holds.

use crate::insn::bpf_insn;
use crate::kind::ProgramKind;
use crate::license::License;
use crate::version::KernelVersion;
use vstd::prelude::*;

verus! {

/// A function: a name and its instructions.
#[derive(Debug, Clone)]
pub struct Function {
    pub address: u64,
    pub name: String,
    /// The section that the function stands in.
    pub section_index: usize,
    /// The byte offset of the function in that section.
    pub section_offset: usize,
    pub instructions: Vec<bpf_insn>,
}

/// The mathematical content of a [`Function`].
pub struct FunctionView {
    pub address: u64,
    pub name: Seq<char>,
    pub section_index: usize,
    pub section_offset: usize,
    pub instructions: Seq<bpf_insn>,
}

impl View for Function {
    type V = FunctionView;

    open spec fn view(&self) -> FunctionView {
        FunctionView {
            address: self.address,
            name: self.name@,
            section_index: self.section_index,
            section_offset: self.section_offset,
            instructions: self.instructions@,
        }
    }
}

/// A function that the kernel can be asked to run, and on what terms.
#[derive(Debug, Clone)]
pub struct Program {
    pub license: License,
    pub kernel_version: KernelVersion,
    pub kind: ProgramKind,
    pub function: Function,
}

/// The mathematical content of a [`Program`].
pub struct ProgramView {
    pub license: Seq<u8>,
    pub kernel_version: KernelVersion,
    pub kind: ProgramKind,
    pub function: FunctionView,
}

impl View for Program {
    type V = ProgramView;

    open spec fn view(&self) -> ProgramView {
        ProgramView {
            license: self.license@,
            kernel_version: self.kernel_version,
            kind: self.kind,
            function: self.function@,
        }
    }
}

} // verus!
