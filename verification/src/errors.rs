use vstd::prelude::*;

verus! {

/// The failure taxonomy of the pipeline core.
///
/// Every variant carries the bytes that identify the failure to the user:
/// the offending token, the unknown stage name, or a stage-qualified
/// message. `BrokenPipe` marks the benign downstream-closed condition that
/// the driver suppresses.
#[derive(Clone, Debug)]
pub enum CodecError {
    /// Malformed command text, with the offending token.
    Parse(Vec<u8>),
    /// A stage name absent from the registry.
    Lookup(Vec<u8>),
    /// A stage's own validation or processing failure.
    Transform(Vec<u8>),
    /// Leftover carry at end of stream where none is expected.
    StreamIntegrity,
    /// Downstream consumer closed early; benign.
    BrokenPipe,
}

/// The spec-level shape of a `CodecError`: the same five kinds, with the
/// carried bytes abstracted to sequences so that contracts can build them.
pub enum ErrModel {
    Parse(Seq<u8>),
    Lookup(Seq<u8>),
    Transform(Seq<u8>),
    StreamIntegrity,
    BrokenPipe,
}

impl View for CodecError {
    type V = ErrModel;

    open spec fn view(&self) -> ErrModel {
        match self {
            CodecError::Parse(t) => ErrModel::Parse(t@),
            CodecError::Lookup(n) => ErrModel::Lookup(n@),
            CodecError::Transform(m) => ErrModel::Transform(m@),
            CodecError::StreamIntegrity => ErrModel::StreamIntegrity,
            CodecError::BrokenPipe => ErrModel::BrokenPipe,
        }
    }
}

impl CodecError {
    /// The bytes this error carries, for display by a driver.
    pub fn detail(&self) -> (r: Vec<u8>)
        ensures
            r@ == self.spec_detail(),
    {
        match self {
            CodecError::Parse(t) => t.clone(),
            CodecError::Lookup(n) => n.clone(),
            CodecError::Transform(m) => m.clone(),
            CodecError::StreamIntegrity => Vec::new(),
            CodecError::BrokenPipe => Vec::new(),
        }
    }

    pub open spec fn spec_detail(&self) -> Seq<u8> {
        match self {
            CodecError::Parse(t) => t@,
            CodecError::Lookup(n) => n@,
            CodecError::Transform(m) => m@,
            CodecError::StreamIntegrity => Seq::empty(),
            CodecError::BrokenPipe => Seq::empty(),
        }
    }
}

} // verus!
