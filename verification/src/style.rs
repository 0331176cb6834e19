use vstd::prelude::*;

verus! {

/// Whether output is to carry color.
#[derive(Debug, Clone, Copy)]
pub struct ColorConfig {
    pub should_strip_ansi: bool,
}

impl ColorConfig {
    /// The configuration for an output stream: color is stripped unless the
    /// stream is a terminal.
    pub fn infer(stdout_is_terminal: bool) -> (config: ColorConfig)
        ensures
            config.should_strip_ansi == !stdout_is_terminal,
    {
        ColorConfig { should_strip_ansi: !stdout_is_terminal }
    }

    /// Whether styled text is to be printed with its styling.
    pub fn apply(&self) -> (styled: bool)
        ensures
            styled == !self.should_strip_ansi,
    {
        !self.should_strip_ansi
    }
}

} // verus!
