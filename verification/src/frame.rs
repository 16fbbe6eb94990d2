//! The sink into which the symbols found for a stack frame are written.

use vstd::prelude::*;

verus! {

/// What is known of the function a frame executes.
pub ghost struct FunctionInfo {
    pub name: Seq<char>,
    pub base: u64,
    pub parameter_size: u32,
}

/// What is known of the source line a frame executes.
pub ghost struct SourceInfo {
    pub file: Seq<char>,
    pub line: u32,
    pub base: u64,
}

/// A stack frame that takes the symbols found for its instruction.
pub trait FrameSymbolizer {
    /// The address of the instruction the frame executes.
    spec fn instruction(&self) -> u64;

    /// The function last written to the frame.
    spec fn function_info(&self) -> Option<FunctionInfo>;

    /// The source line last written to the frame.
    spec fn source_info(&self) -> Option<SourceInfo>;

    /// The address of the instruction the frame executes.
    fn get_instruction(&self) -> (r: u64)
        ensures
            r == self.instruction(),
    ;

    /// Sets the name, the base address and the parameter size of the
    /// function the frame executes.
    fn set_function(&mut self, name: &str, base: u64, parameter_size: u32)
        ensures
            final(self).instruction() == old(self).instruction(),
            final(self).function_info() == Some(FunctionInfo { name: name@, base, parameter_size }),
            final(self).source_info() == old(self).source_info(),
    ;

    /// Sets the source file and the line the frame executes, and the
    /// address at which the line begins.
    fn set_source_file(&mut self, file: &str, line: u32, base: u64)
        ensures
            final(self).instruction() == old(self).instruction(),
            final(self).function_info() == old(self).function_info(),
            final(self).source_info() == Some(SourceInfo { file: file@, line, base }),
    ;
}

/// What can be seen of a frame.
pub ghost struct FrameState {
    /// The address of the instruction the frame executes.
    pub instruction: u64,
    /// The function last written to the frame.
    pub function_info: Option<FunctionInfo>,
    /// The source line last written to the frame.
    pub source_info: Option<SourceInfo>,
}

/// What can be seen of the frame `frame`.
pub open spec fn frame_state<F: FrameSymbolizer>(frame: F) -> FrameState {
    FrameState {
        instruction: frame.instruction(),
        function_info: frame.function_info(),
        source_info: frame.source_info(),
    }
}

/// A frame that holds what was written to it, and no more.
#[derive(Debug)]
pub struct SimpleFrame {
    /// The program counter of the frame.
    pub instruction: u64,
    /// The name of the function in which the instruction lies.
    pub function: Option<String>,
    /// The address at which that function begins, relative to the module.
    pub function_base: Option<u64>,
    /// The size, in bytes, that the function's parameters take on the stack.
    pub parameter_size: Option<u32>,
    /// The name of the source file in which the instruction lies.
    pub source_file: Option<String>,
    /// The line in `source_file`, counted from one.
    pub source_line: Option<u32>,
    /// The address at which that line begins.
    pub source_line_base: Option<u64>,
}

impl Default for SimpleFrame {
    fn default() -> (frame: SimpleFrame)
        ensures
            frame.is_blank(),
            frame.instruction == 0,
    {
        SimpleFrame {
            instruction: 0,
            function: None,
            function_base: None,
            parameter_size: None,
            source_file: None,
            source_line: None,
            source_line_base: None,
        }
    }
}

impl SimpleFrame {
    /// Whether nothing has been written to the frame.
    pub open spec fn is_blank(&self) -> bool {
        &&& self.function is None
        &&& self.function_base is None
        &&& self.parameter_size is None
        &&& self.source_file is None
        &&& self.source_line is None
        &&& self.source_line_base is None
    }

    /// A frame for the instruction at `instruction`, with nothing known of
    /// it yet.
    pub fn with_instruction(instruction: u64) -> (frame: SimpleFrame)
        ensures
            frame.instruction == instruction,
            frame.is_blank(),
    {
        SimpleFrame {
            instruction,
            function: None,
            function_base: None,
            parameter_size: None,
            source_file: None,
            source_line: None,
            source_line_base: None,
        }
    }
}

impl FrameSymbolizer for SimpleFrame {
    open spec fn instruction(&self) -> u64 {
        self.instruction
    }

    open spec fn function_info(&self) -> Option<FunctionInfo> {
        match (self.function, self.function_base, self.parameter_size) {
            (Some(name), Some(base), Some(parameter_size)) => Some(
                FunctionInfo { name: name@, base, parameter_size },
            ),
            _ => None,
        }
    }

    open spec fn source_info(&self) -> Option<SourceInfo> {
        match (self.source_file, self.source_line, self.source_line_base) {
            (Some(file), Some(line), Some(base)) => Some(SourceInfo { file: file@, line, base }),
            _ => None,
        }
    }

    fn get_instruction(&self) -> (r: u64) {
        self.instruction
    }

    fn set_function(&mut self, name: &str, base: u64, parameter_size: u32)
        ensures
            final(self).source_file == old(self).source_file,
            final(self).source_line == old(self).source_line,
            final(self).source_line_base == old(self).source_line_base,
    {
        self.function = Some(name.to_owned());
        self.function_base = Some(base);
        self.parameter_size = Some(parameter_size);
    }

    fn set_source_file(&mut self, file: &str, line: u32, base: u64)
        ensures
            final(self).function == old(self).function,
            final(self).function_base == old(self).function_base,
            final(self).parameter_size == old(self).parameter_size,
    {
        self.source_file = Some(file.to_owned());
        self.source_line = Some(line);
        self.source_line_base = Some(base);
    }
}

} // verus!
