//! The leaf handler that builds one text record from an entry element: its
//! attributes fix the name and the translatable flag, and every text or
//! literal-block run it receives is appended to the accumulated value.

use vstd::prelude::*;

use crate::android_string::{AndroidString, AndroidStringV};
use crate::error::Error;
use crate::events::{Attribute, AttributeV};

verus! {

/// Mathematical model of a [`StringEventHandler`].
pub ghost struct StringEventHandlerV {
    pub name: Seq<char>,
    pub is_translatable: bool,
    pub built: Option<AndroidStringV>,
}

/// The message carried by the syntax error for an entry element without a
/// name attribute.
pub open spec fn missing_name_message() -> Seq<char> {
    "string element is missing required name attribute"@
}

/// The attribute fold: walks the attributes in document order; the last
/// name attribute wins, and a translatable attribute whose value is exactly
/// the false token turns the flag off for good.
pub open spec fn spec_attr_fold(attrs: Seq<AttributeV>) -> (Option<Seq<char>>, bool)
    decreases attrs.len(),
{
    if attrs.len() == 0 {
        (None, true)
    } else {
        let (name, translatable) = spec_attr_fold(attrs.drop_last());
        let a = attrs.last();
        if a.name == "name"@ {
            (Some(a.value), translatable)
        } else if a.name == "translatable"@ && a.value == "false"@ {
            (name, false)
        } else {
            (name, translatable)
        }
    }
}

/// The handler built from an attribute set, or nothing when the required
/// name attribute is missing.
pub open spec fn spec_build(attrs: Seq<AttributeV>) -> Option<StringEventHandlerV> {
    match spec_attr_fold(attrs) {
        (Some(name), translatable) => Some(
            StringEventHandlerV { name, is_translatable: translatable, built: None },
        ),
        (None, _) => None,
    }
}

/// The value accumulated so far: empty until the first run arrives.
pub open spec fn spec_accumulated_value(h: StringEventHandlerV) -> Seq<char> {
    match h.built {
        None => Seq::empty(),
        Some(s) => s.value,
    }
}

/// The handler after one more text run has been appended.
pub open spec fn spec_appended(h: StringEventHandlerV, run: Seq<char>) -> StringEventHandlerV {
    StringEventHandlerV {
        built: Some(
            AndroidStringV {
                name: h.name,
                value: spec_accumulated_value(h) + run,
                translatable: h.is_translatable,
            },
        ),
        ..h
    }
}

/// The literal-block delimiters that wrap a literal run so its original
/// form survives in the accumulated value.
pub open spec fn spec_cdata_wrapped(run: Seq<char>) -> Seq<char> {
    "<![CDATA["@ + run + "]]>"@
}

/// Builds one [`AndroidString`] from an entry element: the element's
/// attributes, then the text runs delivered to it.
#[derive(Debug)]
pub struct StringEventHandler {
    name: String,
    is_translatable: bool,
    built_android_string: Option<AndroidString>,
}

impl View for StringEventHandler {
    type V = StringEventHandlerV;

    closed spec fn view(&self) -> StringEventHandlerV {
        StringEventHandlerV {
            name: self.name@,
            is_translatable: self.is_translatable,
            built: match self.built_android_string {
                None => None,
                Some(s) => Some(s@),
            },
        }
    }
}

impl StringEventHandler {
    /// Reads the attribute set: requires a name attribute, reads an
    /// optional translatable attribute defaulting to translatable.
    pub fn build(attributes: Vec<Attribute>) -> (r: Result<StringEventHandler, Error>)
        ensures
            match r {
                Ok(h) => spec_build(attributes.deep_view()) == Some(h@),
                Err(e) => {
                    &&& spec_build(attributes.deep_view()) is None
                    &&& e matches Error::SyntaxError(m) && m@ == missing_name_message()
                },
            },
    {
        let ghost attrs = attributes.deep_view();
        let name_key: String = "name".to_owned();
        let translatable_key: String = "translatable".to_owned();
        let false_token: String = "false".to_owned();
        let mut string_name: Option<String> = None;
        let mut is_translatable: bool = true;
        let mut i: usize = 0;
        while i < attributes.len()
            invariant
                i <= attributes.len(),
                attrs == attributes.deep_view(),
                name_key@ == "name"@,
                translatable_key@ == "translatable"@,
                false_token@ == "false"@,
                spec_attr_fold(attrs.take(i as int)) == ((
                    match string_name {
                        Some(ref n) => Some(n@),
                        None => None::<Seq<char>>,
                    },
                    is_translatable,
                )),
            decreases attributes.len() - i,
        {
            let a = &attributes[i];
            if a.name == name_key {
                string_name = Some(a.value.clone());
            } else if a.name == translatable_key {
                if a.value == false_token {
                    is_translatable = false;
                }
            }
            proof {
                assert(attrs.take(i + 1int).drop_last() =~= attrs.take(i as int));
                assert(attrs.take(i + 1int).last() == attrs[i as int]);
            }
            i = i + 1;
        }
        proof {
            assert(attrs.take(attributes.len() as int) =~= attrs);
        }
        match string_name {
            None => Err(
                Error::SyntaxError("string element is missing required name attribute".to_owned()),
            ),
            Some(name) => Ok(
                StringEventHandler { name, is_translatable, built_android_string: None },
            ),
        }
    }

    /// Appends one already-delimited run to the accumulated value, creating
    /// the record on the first run.
    fn append_or_create_string(&mut self, text: String)
        ensures
            final(self)@ == spec_appended(old(self)@, text@),
    {
        let value: String = match &self.built_android_string {
            None => text,
            Some(s) => s.value().to_owned().concat(text.as_str()),
        };
        proof {
            assert(value@ == spec_accumulated_value(self@) + text@) by {
                if self.built_android_string is None {
                    assert(Seq::<char>::empty() + text@ =~= text@);
                }
            }
        }
        self.built_android_string = Some(
            AndroidString::new(self.name.clone(), value, self.is_translatable),
        );
    }

    /// Delivers one plain-text run, appended verbatim.
    pub fn handle_characters_event(&mut self, text: String)
        ensures
            final(self)@ == spec_appended(old(self)@, text@),
    {
        self.append_or_create_string(text)
    }

    /// Delivers one literal-block run, appended wrapped in the
    /// literal-block delimiters.
    pub fn handle_cdata_event(&mut self, text: String)
        ensures
            final(self)@ == spec_appended(old(self)@, spec_cdata_wrapped(text@)),
    {
        let wrapped: String = "<![CDATA[".to_owned().concat(text.as_str()).concat("]]>");
        self.append_or_create_string(wrapped)
    }

    /// The finished record, present once at least one run has arrived; an
    /// entry that received no run yields no record.
    pub fn built_string(&self) -> (r: Option<AndroidString>)
        ensures
            match r {
                Some(s) => self@.built == Some(s@),
                None => self@.built is None,
            },
    {
        match &self.built_android_string {
            None => None,
            Some(s) => Some(s.clone()),
        }
    }
}

} // verus!
