//! A raw newly-translated entry of the tabular import source: a
//! default-locale text and the translated text that now stands for it.

use vstd::prelude::*;

verus! {

/// Mathematical model of a [`TranslatedString`].
pub ghost struct TranslatedStringV {
    pub default_value: Seq<char>,
    pub translated_value: Seq<char>,
}

/// One row of the translation import source. Only the two text fields take
/// part in reconciliation: an identifier column of the source, if any, is a
/// hint and never overrides the match by default-locale text.
#[derive(Debug, PartialEq, Eq)]
pub struct TranslatedString {
    default_value: String,
    translated_value: String,
}

impl View for TranslatedString {
    type V = TranslatedStringV;

    closed spec fn view(&self) -> TranslatedStringV {
        TranslatedStringV {
            default_value: self.default_value@,
            translated_value: self.translated_value@,
        }
    }
}

impl DeepView for TranslatedString {
    type V = TranslatedStringV;

    open spec fn deep_view(&self) -> TranslatedStringV {
        self.view()
    }
}

impl TranslatedString {
    pub fn new(default_value: String, translated_value: String) -> (r: TranslatedString)
        ensures
            r@ == (TranslatedStringV {
                default_value: default_value@,
                translated_value: translated_value@,
            }),
    {
        TranslatedString { default_value, translated_value }
    }

    pub fn default_value(&self) -> (r: &str)
        ensures
            r@ == self@.default_value,
    {
        self.default_value.as_str()
    }

    pub fn translated_value(&self) -> (r: &str)
        ensures
            r@ == self@.translated_value,
    {
        self.translated_value.as_str()
    }
}

} // verus!
