//! Messages for users, kept as a key and its arguments until they are shown.

use vstd::prelude::*;
use vstd::string::*;

verus! {

/// A message for a user: the key of its text and the arguments that the text
/// is filled with, in the order in which they were given.
#[derive(Debug)]
pub struct FluentMessage {
    pub id: String,
    pub data: Vec<(String, String)>,
}

/// A message as the contracts see it.
pub ghost struct FluentMessageView {
    pub id: Seq<char>,
    pub data: Seq<(Seq<char>, Seq<char>)>,
}

impl View for FluentMessage {
    type V = FluentMessageView;

    open spec fn view(&self) -> FluentMessageView {
        FluentMessageView {
            id: self.id@,
            data: self.data@.map_values(|p: (String, String)| (p.0@, p.1@)),
        }
    }
}

/// The arguments `data` as plain text: before each a blank, then its name,
/// an equals sign and its value.
pub open spec fn arguments_text(data: Seq<(Seq<char>, Seq<char>)>) -> Seq<char>
    decreases data.len(),
{
    if data.len() == 0 {
        Seq::empty()
    } else {
        arguments_text(data.drop_last()) + " "@ + data.last().0 + "="@ + data.last().1
    }
}

impl FluentMessage {
    /// The message as plain text, for where no text in the user's language
    /// is at hand: its key, and its arguments after it.
    pub fn to_text(&self) -> (out: String)
        ensures
            out@ == self@.id + arguments_text(self@.data),
    {
        let mut out = self.id.clone();
        let mut i: usize = 0;
        proof {
            assert(self@.data.take(0) =~= Seq::empty());
            assert(out@ =~= self@.id + arguments_text(self@.data.take(0)));
        }
        while i < self.data.len()
            invariant
                i <= self.data@.len(),
                out@ == self@.id + arguments_text(self@.data.take(i as int)),
            decreases self.data@.len() - i,
        {
            proof {
                assert(self@.data.take(i + 1).drop_last() =~= self@.data.take(i as int));
                assert(self@.data.take(i + 1).last() == (
                    self.data@[i as int].0@,
                    self.data@[i as int].1@,
                ));
            }
            let ghost before = out@;
            out.append(" ");
            out.append(self.data[i].0.as_str());
            out.append("=");
            out.append(self.data[i].1.as_str());
            proof {
                assert(out@ =~= self@.id + (arguments_text(self@.data.take(i as int)) + " "@
                    + self.data@[i as int].0@ + "="@ + self.data@[i as int].1@));
            }
            i += 1;
        }
        proof {
            assert(self@.data.take(i as int) =~= self@.data);
        }
        out
    }

    /// A message without arguments.
    pub fn new(id: &str) -> (out: Self)
        ensures
            out@ == (FluentMessageView { id: id@, data: Seq::empty() }),
    {
        let out = FluentMessage { id: String::from_str(id), data: Vec::new() };
        proof {
            assert(out@.data =~= Seq::empty());
        }
        out
    }

    /// The same message with one more argument after those it has.
    pub fn with(self, name: &str, value: &str) -> (out: Self)
        ensures
            out@ == (FluentMessageView { id: self@.id, data: self@.data.push((name@, value@)) }),
    {
        let mut data = self.data;
        let ghost before = data@;
        data.push((String::from_str(name), String::from_str(value)));
        let out = FluentMessage { id: self.id, data };
        proof {
            assert(out@.data =~= before.map_values(|p: (String, String)| (p.0@, p.1@)).push(
                (name@, value@),
            ));
        }
        out
    }
}

} // verus!
