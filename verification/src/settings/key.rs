use crate::text::copy_strings;
use vstd::prelude::*;

verus! {

/// The key, or the keys, of a binding as it is written in the settings.
#[derive(Debug, PartialEq, Eq)]
pub enum Key {
    Key(String),
    Keys(Vec<String>),
}

pub ghost enum KeyView {
    Key(Seq<char>),
    Keys(Seq<Seq<char>>),
}

impl View for Key {
    type V = KeyView;

    open spec fn view(&self) -> KeyView {
        match self {
            Key::Key(k) => KeyView::Key(k@),
            Key::Keys(ks) => KeyView::Keys(ks.deep_view()),
        }
    }
}

impl Clone for Key {
    fn clone(&self) -> (out: Self)
        ensures
            out@ == self@,
    {
        match self {
            Key::Key(k) => Key::Key(k.clone()),
            Key::Keys(ks) => Key::Keys(copy_strings(ks)),
        }
    }
}

} // verus!
