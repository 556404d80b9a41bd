//! Topics: names of classes of broker events, checked when they are read.
use vstd::prelude::*;

verus! {

/// Whether `c` may stand in a topic: an ASCII letter or digit, `_`, `-`, or the separator `/`.
pub open spec fn is_topic_char(c: char) -> bool {
    ('a' <= c && c <= 'z') || ('A' <= c && c <= 'Z') || ('0' <= c && c <= '9') || c == '_' || c
        == '-' || c == '/'
}

/// A topic is one or more non-empty segments of topic characters, separated by single `/`.
pub open spec fn valid_topic(s: Seq<char>) -> bool {
    &&& s.len() > 0
    &&& forall|i: int| 0 <= i < s.len() ==> is_topic_char(#[trigger] s[i])
    &&& s[0] != '/'
    &&& s[s.len() - 1] != '/'
    &&& forall|i: int| 0 <= i < s.len() - 1 ==> !(#[trigger] s[i] == '/' && s[i + 1] == '/')
}

/// A topic text that has passed the grammar check.
#[derive(Clone, Debug)]
pub struct Topic {
    text: String,
}

impl View for Topic {
    type V = Seq<char>;

    closed spec fn view(&self) -> Seq<char> {
        self.text@
    }
}

/// Why a topic text was refused: it is not a topic.
#[derive(Clone, Debug, PartialEq, Eq)]
pub struct InvalidTopic {
    pub text: String,
}

fn is_topic_char_exec(c: char) -> (r: bool)
    ensures
        r == is_topic_char(c),
{
    ('a' <= c && c <= 'z') || ('A' <= c && c <= 'Z') || ('0' <= c && c <= '9') || c == '_' || c
        == '-' || c == '/'
}

/// Whether `text` follows the topic grammar.
pub fn is_valid_topic(text: &str) -> (r: bool)
    ensures
        r == valid_topic(text@),
{
    let n = text.unicode_len();
    if n == 0 {
        return false;
    }
    let mut prev: char = '/';
    let mut i: usize = 0;
    while i < n
        invariant
            n as nat == text@.len(),
            0 <= i <= n,
            n > 0,
            i > 0 ==> prev == text@[i - 1],
            i == 0 ==> prev == '/',
            forall|j: int| 0 <= j < i ==> is_topic_char(#[trigger] text@[j]),
            text@[0] != '/' || i == 0,
            forall|j: int| 0 <= j < i - 1 ==> !(#[trigger] text@[j] == '/' && text@[j + 1] == '/'),
        decreases n - i,
    {
        let c = text.get_char(i);
        if !is_topic_char_exec(c) {
            return false;
        }
        if c == '/' && prev == '/' {
            assert(i == 0 || (text@[i - 1] == '/' && text@[i as int] == '/'));
            return false;
        }
        prev = c;
        i = i + 1;
    }
    prev != '/'
}

impl Topic {
    /// Reads a topic from its text; fails with the text when it breaks the grammar.
    pub fn parse(text: &str) -> (r: Result<Topic, InvalidTopic>)
        ensures
            valid_topic(text@) <==> r is Ok,
            r matches Ok(t) ==> t@ == text@,
            r matches Err(e) ==> e.text@ == text@,
    {
        if is_valid_topic(text) {
            Ok(Topic { text: text.to_owned() })
        } else {
            Err(InvalidTopic { text: text.to_owned() })
        }
    }

    /// The topic's text.
    pub fn as_str(&self) -> (r: &str)
        ensures
            r@ == self@,
    {
        self.text.as_str()
    }
}

} // verus!
