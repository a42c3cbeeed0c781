use vstd::prelude::*;

use crate::text::joined;

verus! {

/// Why a SARIF strategy could not be resolved or a SARIF stream was refused.
#[derive(Debug)]
pub enum SarifError {
    /// The YAML that was embedded for `hook_id` did not parse; `detail` is
    /// what the YAML parser said.
    EmbeddedYaml { hook_id: String, detail: String },
    /// An adaptor YAML that names neither flags nor a binary.
    EmptyAdaptor,
    /// A JSON document of a SARIF stream that has neither a `runs` array nor
    /// a `tool` member, or a stream that is not blank yet holds no document.
    NotSarif,
    /// The bytes of a SARIF stream are not JSON; the payload is what the JSON
    /// parser said.
    InvalidJson(String),
}

impl SarifError {
    /// The text that describes the error.
    pub open spec fn message_text(self) -> Seq<char> {
        match self {
            SarifError::EmbeddedYaml { hook_id, .. } =>
                "Failed to parse embedded adaptor yaml for `"@ + hook_id@ + "`"@,
            SarifError::EmptyAdaptor => "Adaptor YAML must specify either `flags` or `binary`"@,
            SarifError::NotSarif => "Output is not SARIF: missing `runs` array"@,
            SarifError::InvalidJson(detail) => detail@,
        }
    }

    /// The text that describes the error.
    pub fn message(&self) -> (text: String)
        ensures
            text@ == self.message_text(),
    {
        match self {
            SarifError::EmbeddedYaml { hook_id, .. } => {
                let mut text = joined("Failed to parse embedded adaptor yaml for `", hook_id.as_str());
                text.append("`");
                text
            },
            SarifError::EmptyAdaptor => String::from_str("Adaptor YAML must specify either `flags` or `binary`"),
            SarifError::NotSarif => String::from_str("Output is not SARIF: missing `runs` array"),
            SarifError::InvalidJson(detail) => detail.clone(),
        }
    }
}

} // verus!
