//! Texts of the operating system: values of environment variables and names of
//! programs, which need not be UTF-8.
use vstd::prelude::*;

use crate::text::Text;

verus! {

/// A text of the operating system.
#[derive(Debug, PartialEq, Eq)]
pub struct OsText {
    /// The text; where it is not UTF-8, with replacement characters.
    pub text: String,
    /// The bytes of the text, where it is not UTF-8.
    pub bytes: Option<Vec<u8>>,
}

/// What a text of the operating system holds.
#[verifier::ext_equal]
pub struct OsTextView {
    /// The text; where it is not UTF-8, with replacement characters.
    pub text: Text,
    /// The bytes of the text, where it is not UTF-8.
    pub bytes: Option<Seq<u8>>,
}

impl View for OsText {
    type V = OsTextView;

    open spec fn view(&self) -> OsTextView {
        OsTextView {
            text: self.text@,
            bytes: match self.bytes {
                Some(bytes) => Some(bytes@),
                None => None,
            },
        }
    }
}

/// A text that is UTF-8.
pub open spec fn plain(text: Text) -> OsTextView {
    OsTextView { text, bytes: None }
}

/// A text that is UTF-8, where there is one.
pub open spec fn opt_plain(text: Option<Text>) -> Option<OsTextView> {
    match text {
        Some(text) => Some(plain(text)),
        None => None,
    }
}

/// What an optional text holds.
pub open spec fn opt_os(o: Option<OsText>) -> Option<OsTextView> {
    match o {
        Some(t) => Some(t@),
        None => None,
    }
}

/// What a list of optional texts holds.
pub open spec fn opt_os_list(list: Seq<Option<OsText>>) -> Seq<Option<OsTextView>> {
    list.map_values(|o: Option<OsText>| opt_os(o))
}

/// A text as it is read, with replacement characters where it is not UTF-8.
pub open spec fn readable(o: Option<OsTextView>) -> Option<Text> {
    match o {
        Some(t) => Some(t.text),
        None => None,
    }
}

/// A text, where it is UTF-8.
pub open spec fn where_utf8(o: Option<OsTextView>) -> Option<Text> {
    match o {
        Some(t) => match t.bytes {
            Some(_) => None,
            None => Some(t.text),
        },
        None => None,
    }
}

impl OsText {
    /// A text that is UTF-8.
    pub fn new(text: &str) -> (r: OsText)
        ensures
            r@ == plain(text@),
    {
        OsText { text: text.to_owned(), bytes: None }
    }

    /// The same text.
    pub fn copy(&self) -> (r: OsText)
        ensures
            r@ == self@,
    {
        let bytes = match &self.bytes {
            Some(bytes) => {
                let copy = bytes.clone();
                assert(copy@ =~= bytes@);
                Some(copy)
            },
            None => None,
        };
        OsText { text: self.text.clone(), bytes }
    }

    /// The text as it is read.
    pub fn as_str(&self) -> (r: &str)
        ensures
            r@ == self@.text,
    {
        self.text.as_str()
    }
}

/// The text as it is read, where there is one.
pub fn read_text(o: Option<OsText>) -> (r: Option<String>)
    ensures
        match r {
            Some(text) => readable(opt_os(o)) == Some(text@),
            None => readable(opt_os(o)) is None,
        },
{
    match o {
        Some(t) => Some(t.text),
        None => None,
    }
}

/// A text that is UTF-8, where there is one.
pub fn os_text_of(o: Option<String>) -> (r: Option<OsText>)
    ensures
        opt_os(r) == opt_plain(
            match o {
                Some(text) => Some(text@),
                None => None,
            },
        ),
{
    match o {
        Some(text) => Some(OsText { text, bytes: None }),
        None => None,
    }
}

} // verus!
