use vstd::prelude::*;

verus! {

/// What can go wrong while the inspector state is updated or loaded.
#[derive(Debug)]
pub enum FastEmuGUIError {
    /// A frame was handed over whose length is not `width * height * 4`.
    MismatchedBufferSize { expected: usize, received: usize },
    /// Reading the configuration failed.
    IOError { message: String },
    /// The configuration could not be parsed.
    SerdeError { message: String },
}

} // verus!
