//! The message envelope: a client-supplied payload wrapped with the sending
//! user's name before redistribution, and its exact outbound wire format.

use vstd::prelude::*;
use vstd::string::StrSliceExecFns;
use vstd::string::StringExecFns;

verus! {

/// Longest accepted message text, measured in characters, not bytes.
pub const MAX_TEXT_LEN: usize = 128;

/// Mathematical image of an envelope: the two character sequences it carries.
pub ghost struct EnvelopeV {
    pub user: Seq<char>,
    pub text: Seq<char>,
}

/// The wire-level chat unit. The `user` field is always the server-side name
/// of the sending connection, never taken from the client; `text` is the
/// client's payload, accepted only when it is at most [`MAX_TEXT_LEN`]
/// characters long.
pub struct Envelope {
    pub user: String,
    pub text: String,
}

impl View for Envelope {
    type V = EnvelopeV;

    open spec fn view(&self) -> EnvelopeV {
        EnvelopeV { user: self.user@, text: self.text@ }
    }
}

impl Clone for Envelope {
    fn clone(&self) -> (r: Envelope)
        ensures
            r == *self,
    {
        Envelope { user: self.user.clone(), text: self.text.clone() }
    }
}

/// An envelope respects the length bound on its text.
pub open spec fn envelope_valid(e: EnvelopeV) -> bool {
    e.text.len() <= MAX_TEXT_LEN
}

/// The exact shape in which a delivered envelope is written to the wire.
/// Both fields are embedded verbatim.
pub open spec fn wire_of(user: Seq<char>, text: Seq<char>) -> Seq<char> {
    "{\n  \"user\": \""@ + user + "\",\n  \"message\": \""@ + text + "\"\n}"@
}

impl Envelope {
    /// Wrap `text` under `user`'s name, rejecting any text longer than
    /// [`MAX_TEXT_LEN`] characters; nothing is truncated.
    pub fn new(user: String, text: String) -> (r: Option<Envelope>)
        ensures
            (match r {
                Some(e) => {
                    &&& text@.len() <= MAX_TEXT_LEN
                    &&& e@.user == user@
                    &&& e@.text == text@
                    &&& envelope_valid(e@)
                },
                None => text@.len() > MAX_TEXT_LEN,
            }),
    {
        let n = text.as_str().unicode_len();
        if n <= MAX_TEXT_LEN {
            Some(Envelope { user, text })
        } else {
            None
        }
    }

    /// Serialize for delivery, exactly in the documented wire shape.
    pub fn to_wire(&self) -> (r: String)
        ensures
            r@ == wire_of(self@.user, self@.text),
    {
        let mut s = String::from_str("{\n  \"user\": \"");
        s.append(self.user.as_str());
        s.append("\",\n  \"message\": \"");
        s.append(self.text.as_str());
        s.append("\"\n}");
        proof {
            assert(s@ =~= wire_of(self@.user, self@.text));
        }
        s
    }
}

} // verus!
