//! Settings of the WebAssembly back end.

use vstd::prelude::*;

verus! {

/// Output format of the WebAssembly back end.
#[derive(Debug, Clone, Copy, PartialEq, Eq, Structural)]
pub enum WasmFormat {
    /// A standalone module.
    Standalone,
    /// A WASI-compatible module.
    Wasi,
}

/// WebAssembly compiler settings.
pub struct WasmCompiler {
    format: WasmFormat,
}

impl WasmCompiler {
    /// The output format of this compiler.
    pub closed spec fn spec_format(&self) -> WasmFormat {
        self.format
    }

    /// A compiler producing `format`.
    pub fn new(format: WasmFormat) -> (r: Self)
        ensures
            r.spec_format() == format,
    {
        WasmCompiler { format }
    }

    /// A compiler producing standalone modules.
    pub fn standalone() -> (r: Self)
        ensures
            r.spec_format() == WasmFormat::Standalone,
    {
        Self::new(WasmFormat::Standalone)
    }

    /// A compiler producing WASI modules.
    pub fn wasi() -> (r: Self)
        ensures
            r.spec_format() == WasmFormat::Wasi,
    {
        Self::new(WasmFormat::Wasi)
    }

    /// The output format.
    pub fn format(&self) -> (r: WasmFormat)
        ensures
            r == self.spec_format(),
    {
        self.format
    }
}

} // verus!
