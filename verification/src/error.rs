use vstd::prelude::*;
use vstd::string::*;

verus! {

/// Every way in which composing a project can fail. All of them are fatal to
/// the run: nothing is retried and nothing is rolled back.
#[derive(Debug, Clone, Copy, PartialEq, Eq, Structural)]
pub enum ComposeError {
    /// The template or addon directories could not be enumerated.
    Discovery,
    /// Enumeration worked but offered no template to choose from.
    NoTemplatesFound,
    /// A descriptor or manifest lacks a required field or is malformed.
    DescriptorParse,
    /// The source of an entry does not exist or cannot be read.
    SourceNotFound,
    /// The source of an entry has no final path component.
    InvalidSourceName,
    /// A diff could not be applied to the text it was meant for.
    PatchApplication,
    /// The final manifest could not be serialized.
    ManifestSerialization,
    /// The final manifest could not be written.
    ManifestWrite,
}

/// The sentence that names an error to the user.
pub open spec fn message_of(error: ComposeError) -> Seq<char> {
    match error {
        ComposeError::Discovery => "templates or addons could not be read"@,
        ComposeError::NoTemplatesFound => "no templates found"@,
        ComposeError::DescriptorParse => "a descriptor or manifest is malformed"@,
        ComposeError::SourceNotFound => "a source path does not exist or cannot be read"@,
        ComposeError::InvalidSourceName => "a source path has no file name"@,
        ComposeError::PatchApplication => "a patch could not be applied"@,
        ComposeError::ManifestSerialization => "the manifest could not be serialized"@,
        ComposeError::ManifestWrite => "the manifest could not be written"@,
    }
}

impl ComposeError {
    /// The sentence that names the error to the user.
    pub fn message(&self) -> (text: String)
        ensures
            text@ == message_of(*self),
    {
        match self {
            ComposeError::Discovery => String::from_str("templates or addons could not be read"),
            ComposeError::NoTemplatesFound => String::from_str("no templates found"),
            ComposeError::DescriptorParse => String::from_str(
                "a descriptor or manifest is malformed",
            ),
            ComposeError::SourceNotFound => String::from_str(
                "a source path does not exist or cannot be read",
            ),
            ComposeError::InvalidSourceName => String::from_str("a source path has no file name"),
            ComposeError::PatchApplication => String::from_str("a patch could not be applied"),
            ComposeError::ManifestSerialization => String::from_str(
                "the manifest could not be serialized",
            ),
            ComposeError::ManifestWrite => String::from_str("the manifest could not be written"),
        }
    }

    /// Whether the error can only arise once the destination tree has been
    /// touched, so that a failed run leaves files behind.
    pub open spec fn after_mutation(self) -> bool {
        match self {
            ComposeError::Discovery => false,
            ComposeError::NoTemplatesFound => false,
            ComposeError::DescriptorParse => false,
            _ => true,
        }
    }

    /// Executable form of [`ComposeError::after_mutation`].
    pub fn leaves_partial_destination(&self) -> (partial: bool)
        ensures
            partial == self.after_mutation(),
    {
        match self {
            ComposeError::Discovery => false,
            ComposeError::NoTemplatesFound => false,
            ComposeError::DescriptorParse => false,
            _ => true,
        }
    }
}

} // verus!
