//! A helper type for building a JSON-encoded string on the fly.
//!
//! The builder only supports strings without control characters; the two
//! characters that JSON cannot carry bare, the quote and the backslash,
//! are escaped. Nested objects and arrays are built in a builder of their
//! own and spliced into their parent.

use vstd::prelude::*;

use crate::text::push_char;

verus! {

/// A character, escaped for a JSON string.
pub open spec fn esc_char(c: char) -> Seq<char> {
    if c == '"' || c == '\\' {
        seq!['\\', c]
    } else {
        seq![c]
    }
}

/// A character sequence, escaped for a JSON string.
pub open spec fn json_escape(s: Seq<char>) -> Seq<char>
    decreases s.len(),
{
    if s.len() == 0 {
        Seq::empty()
    } else {
        json_escape(s.drop_last()) + esc_char(s.last())
    }
}

/// Three spaces for every indentation level.
pub open spec fn indent_seq(n: nat) -> Seq<char>
    decreases n,
{
    if n == 0 {
        Seq::empty()
    } else {
        indent_seq((n - 1) as nat) + "   "@
    }
}

/// What a member or array element is preceded by: nothing for the first,
/// a comma and a line break for the rest.
pub open spec fn sep(empty: bool) -> Seq<char> {
    if empty {
        Seq::empty()
    } else {
        ",\n"@
    }
}

/// What `append_key` appends: the separator, the indentation, the quoted
/// escaped key, a colon and a space.
pub open spec fn key_seq(empty: bool, ind: nat, key: Seq<char>) -> Seq<char> {
    sep(empty) + indent_seq(ind) + seq!['"'] + json_escape(key) + "\": "@
}

/// Appends `s`, escaped for a JSON string, to `target`.
fn push_escaped(target: &mut String, s: &str)
    ensures
        final(target)@ == old(target)@ + json_escape(s@),
{
    let n = s.unicode_len();
    let mut i: usize = 0;
    while i < n
        invariant
            n == s@.len(),
            0 <= i <= n,
            target@ == old(target)@ + json_escape(s@.subrange(0, i as int)),
        decreases n - i,
    {
        let c = s.get_char(i);
        if c == '"' || c == '\\' {
            push_char(target, '\\');
        }
        push_char(target, c);
        proof {
            assert(s@.subrange(0, i + 1).drop_last() =~= s@.subrange(0, i as int));
            assert(s@.subrange(0, i + 1).last() == s@[i as int]);
            assert(target@ =~= old(target)@ + json_escape(s@.subrange(0, i + 1)));
        }
        i = i + 1;
    }
    proof {
        assert(s@.subrange(0, n as int) =~= s@);
    }
}

/// A helper type for building a JSON-encoded string on the fly.
pub struct JsonBuilder {
    target: String,
    indent: usize,
    empty: bool,
}

impl JsonBuilder {
    /// The text built so far.
    pub closed spec fn text(&self) -> Seq<char> {
        self.target@
    }

    /// The indentation level members are written at.
    pub closed spec fn spec_indent(&self) -> nat {
        self.indent as nat
    }

    /// Whether no member or element has been written yet.
    pub closed spec fn spec_empty(&self) -> bool {
        self.empty
    }

    /// A builder for the members of the top-level object.
    pub fn new() -> (r: Self)
        ensures
            r.text() =~= Seq::<char>::empty(),
            r.spec_indent() == 1,
            r.spec_empty(),
    {
        JsonBuilder { target: String::new(), indent: 1, empty: true }
    }

    /// A builder for the members of an object or array nested in this one.
    pub fn nested(&self) -> (r: Self)
        requires
            self.spec_indent() < usize::MAX,
        ensures
            r.text() =~= Seq::<char>::empty(),
            r.spec_indent() == self.spec_indent() + 1,
            r.spec_empty(),
    {
        JsonBuilder { target: String::new(), indent: self.indent + 1, empty: true }
    }

    /// Wraps the members built in `body` as the top-level object and
    /// returns the finished text.
    pub fn build(body: JsonBuilder) -> (r: String)
        ensures
            r@ == "{\n"@ + body.text() + "\n}"@,
    {
        let mut target = "{\n".to_owned();
        target.append(body.target.as_str());
        target.append("\n}");
        proof {
            assert(target@ =~= "{\n"@ + body.text() + "\n}"@);
        }
        target
    }

    /// Appends the separator: nothing before the first member or element,
    /// a comma and a line break before the rest.
    pub fn append_array_head(&mut self)
        ensures
            final(self).text() == old(self).text() + sep(old(self).spec_empty()),
            !final(self).spec_empty(),
            final(self).spec_indent() == old(self).spec_indent(),
    {
        if self.empty {
            self.empty = false;
            proof {
                assert(self.text() =~= old(self).text() + sep(old(self).spec_empty()));
            }
        } else {
            self.target.append(",\n");
        }
    }

    /// Appends the indentation of this builder's level.
    pub fn append_indent(&mut self)
        ensures
            final(self).text() == old(self).text() + indent_seq(old(self).spec_indent()),
            final(self).spec_empty() == old(self).spec_empty(),
            final(self).spec_indent() == old(self).spec_indent(),
    {
        let mut i: usize = 0;
        while i < self.indent
            invariant
                0 <= i <= self.indent,
                self.indent == old(self).indent,
                self.empty == old(self).empty,
                self.target@ == old(self).target@ + indent_seq(i as nat),
            decreases self.indent - i,
        {
            self.target.append("   ");
            i = i + 1;
        }
    }

    /// Appends the separator, the indentation and the quoted escaped key
    /// followed by a colon.
    pub fn append_key(&mut self, key: &str)
        ensures
            final(self).text() == old(self).text() + key_seq(
                old(self).spec_empty(),
                old(self).spec_indent(),
                key@,
            ),
            !final(self).spec_empty(),
            final(self).spec_indent() == old(self).spec_indent(),
    {
        self.append_array_head();
        self.append_indent();
        push_char(&mut self.target, '"');
        push_escaped(&mut self.target, key);
        self.target.append("\": ");
        proof {
            assert(self.text() =~= old(self).text() + key_seq(
                old(self).spec_empty(),
                old(self).spec_indent(),
                key@,
            ));
        }
    }

    /// Appends a member whose value is a JSON string.
    pub fn member_str(&mut self, key: &str, value: &str)
        ensures
            final(self).text() == old(self).text() + key_seq(
                old(self).spec_empty(),
                old(self).spec_indent(),
                key@,
            ) + seq!['"'] + json_escape(value@) + seq!['"'],
            !final(self).spec_empty(),
            final(self).spec_indent() == old(self).spec_indent(),
    {
        self.append_key(key);
        push_char(&mut self.target, '"');
        push_escaped(&mut self.target, value);
        push_char(&mut self.target, '"');
        proof {
            assert(self.text() =~= old(self).text() + key_seq(
                old(self).spec_empty(),
                old(self).spec_indent(),
                key@,
            ) + seq!['"'] + json_escape(value@) + seq!['"']);
        }
    }

    /// Appends a member whose value is written bare (a number, a literal).
    pub fn member_raw(&mut self, key: &str, value: &str)
        ensures
            final(self).text() == old(self).text() + key_seq(
                old(self).spec_empty(),
                old(self).spec_indent(),
                key@,
            ) + json_escape(value@),
            !final(self).spec_empty(),
            final(self).spec_indent() == old(self).spec_indent(),
    {
        self.append_key(key);
        push_escaped(&mut self.target, value);
        proof {
            assert(self.text() =~= old(self).text() + key_seq(
                old(self).spec_empty(),
                old(self).spec_indent(),
                key@,
            ) + json_escape(value@));
        }
    }

    /// Appends a member whose value is the object whose members were built
    /// in `body`.
    pub fn member_object(&mut self, key: &str, body: &JsonBuilder)
        ensures
            final(self).text() == old(self).text() + key_seq(
                old(self).spec_empty(),
                old(self).spec_indent(),
                key@,
            ) + "{\n"@ + body.text() + seq!['\n'] + indent_seq(old(self).spec_indent()) + seq!['}'],
            !final(self).spec_empty(),
            final(self).spec_indent() == old(self).spec_indent(),
    {
        self.append_key(key);
        self.target.append("{\n");
        self.target.append(body.target.as_str());
        push_char(&mut self.target, '\n');
        self.append_indent();
        push_char(&mut self.target, '}');
        proof {
            assert(self.text() =~= old(self).text() + key_seq(
                old(self).spec_empty(),
                old(self).spec_indent(),
                key@,
            ) + "{\n"@ + body.text() + seq!['\n'] + indent_seq(old(self).spec_indent())
                + seq!['}']);
        }
    }

    /// Appends a member whose value is the array whose elements were built
    /// in `body`.
    pub fn member_array(&mut self, key: &str, body: &JsonBuilder)
        ensures
            final(self).text() == old(self).text() + key_seq(
                old(self).spec_empty(),
                old(self).spec_indent(),
                key@,
            ) + "[\n"@ + body.text() + seq!['\n'] + indent_seq(old(self).spec_indent()) + seq![']'],
            !final(self).spec_empty(),
            final(self).spec_indent() == old(self).spec_indent(),
    {
        self.append_key(key);
        self.target.append("[\n");
        self.target.append(body.target.as_str());
        push_char(&mut self.target, '\n');
        self.append_indent();
        push_char(&mut self.target, ']');
        proof {
            assert(self.text() =~= old(self).text() + key_seq(
                old(self).spec_empty(),
                old(self).spec_indent(),
                key@,
            ) + "[\n"@ + body.text() + seq!['\n'] + indent_seq(old(self).spec_indent())
                + seq![']']);
        }
    }

    /// Appends an array element that is the object whose members were
    /// built in `body`.
    pub fn array_object(&mut self, body: &JsonBuilder)
        ensures
            final(self).text() == old(self).text() + sep(old(self).spec_empty()) + indent_seq(
                old(self).spec_indent(),
            ) + "{\n"@ + body.text() + seq!['\n'] + indent_seq(old(self).spec_indent()) + seq!['}'],
            !final(self).spec_empty(),
            final(self).spec_indent() == old(self).spec_indent(),
    {
        self.append_array_head();
        self.append_indent();
        self.target.append("{\n");
        self.target.append(body.target.as_str());
        push_char(&mut self.target, '\n');
        self.append_indent();
        push_char(&mut self.target, '}');
        proof {
            assert(self.text() =~= old(self).text() + sep(old(self).spec_empty()) + indent_seq(
                old(self).spec_indent(),
            ) + "{\n"@ + body.text() + seq!['\n'] + indent_seq(old(self).spec_indent())
                + seq!['}']);
        }
    }

    /// Appends an array element that is the array whose elements were
    /// built in `body`.
    pub fn array_array(&mut self, body: &JsonBuilder)
        ensures
            final(self).text() == old(self).text() + sep(old(self).spec_empty()) + indent_seq(
                old(self).spec_indent(),
            ) + "[\n"@ + body.text() + seq!['\n'] + indent_seq(old(self).spec_indent()) + seq![']'],
            !final(self).spec_empty(),
            final(self).spec_indent() == old(self).spec_indent(),
    {
        self.append_array_head();
        self.append_indent();
        self.target.append("[\n");
        self.target.append(body.target.as_str());
        push_char(&mut self.target, '\n');
        self.append_indent();
        push_char(&mut self.target, ']');
        proof {
            assert(self.text() =~= old(self).text() + sep(old(self).spec_empty()) + indent_seq(
                old(self).spec_indent(),
            ) + "[\n"@ + body.text() + seq!['\n'] + indent_seq(old(self).spec_indent())
                + seq![']']);
        }
    }

    /// Appends an array element that is a JSON string.
    pub fn array_str(&mut self, value: &str)
        ensures
            final(self).text() == old(self).text() + sep(old(self).spec_empty()) + indent_seq(
                old(self).spec_indent(),
            ) + seq!['"'] + json_escape(value@) + seq!['"'],
            !final(self).spec_empty(),
            final(self).spec_indent() == old(self).spec_indent(),
    {
        self.append_array_head();
        self.append_indent();
        push_char(&mut self.target, '"');
        push_escaped(&mut self.target, value);
        push_char(&mut self.target, '"');
        proof {
            assert(self.text() =~= old(self).text() + sep(old(self).spec_empty()) + indent_seq(
                old(self).spec_indent(),
            ) + seq!['"'] + json_escape(value@) + seq!['"']);
        }
    }

    /// Appends an array element that is written bare.
    pub fn array_raw(&mut self, value: &str)
        ensures
            final(self).text() == old(self).text() + sep(old(self).spec_empty()) + indent_seq(
                old(self).spec_indent(),
            ) + json_escape(value@),
            !final(self).spec_empty(),
            final(self).spec_indent() == old(self).spec_indent(),
    {
        self.append_array_head();
        self.append_indent();
        push_escaped(&mut self.target, value);
        proof {
            assert(self.text() =~= old(self).text() + sep(old(self).spec_empty()) + indent_seq(
                old(self).spec_indent(),
            ) + json_escape(value@));
        }
    }
}

} // verus!
