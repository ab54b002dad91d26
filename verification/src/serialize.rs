use vstd::prelude::*;

verus! {

use vstd::string::{StrSliceExecFns, StringExecFns};
use vstd::utf8::encode_utf8;

/// How one character is embedded in a JSON string: quote, backslash and the
/// three common control characters are escaped, everything else stands
/// verbatim.
pub open spec fn esc_char(c: char) -> Seq<char> {
    if c == '"' {
        seq!['\\', '"']
    } else if c == '\\' {
        seq!['\\', '\\']
    } else if c == '\n' {
        seq!['\\', 'n']
    } else if c == '\r' {
        seq!['\\', 'r']
    } else if c == '\t' {
        seq!['\\', 't']
    } else {
        seq![c]
    }
}

/// The body of a JSON string: each character escaped in turn.
pub open spec fn json_escaped(s: Seq<char>) -> Seq<char>
    decreases s.len(),
{
    if s.len() == 0 {
        Seq::empty()
    } else {
        esc_char(s[0]) + json_escaped(s.skip(1))
    }
}

/// A JSON string: the escaped body between double quotes.
pub open spec fn json_quoted(s: Seq<char>) -> Seq<char> {
    seq!['"'] + json_escaped(s) + seq!['"']
}

proof fn lemma_json_escaped_append(a: Seq<char>, b: Seq<char>)
    ensures
        json_escaped(a + b) == json_escaped(a) + json_escaped(b),
    decreases a.len(),
{
    if a.len() == 0 {
        assert(a + b =~= b);
        assert(json_escaped(a) + json_escaped(b) =~= json_escaped(b));
    } else {
        assert((a + b)[0] == a[0]);
        assert((a + b).skip(1) =~= a.skip(1) + b);
        lemma_json_escaped_append(a.skip(1), b);
        assert(esc_char(a[0]) + (json_escaped(a.skip(1)) + json_escaped(b)) =~= (esc_char(a[0])
            + json_escaped(a.skip(1))) + json_escaped(b));
    }
}

/// Appends the escaped body of `s` to `buf`.
fn push_escaped(buf: &mut String, s: &str)
    ensures
        final(buf)@ == old(buf)@ + json_escaped(s@),
{
    let n = s.unicode_len();
    let mut i: usize = 0;
    proof {
        assert(s@.take(0) =~= Seq::<char>::empty());
        assert(buf@ + json_escaped(s@.take(0)) =~= buf@);
    }
    while i < n
        invariant
            i <= n,
            n == s@.len(),
            buf@ == old(buf)@ + json_escaped(s@.take(i as int)),
        decreases n - i,
    {
        let ghost pre = buf@;
        let c = s.get_char(i);
        if c == '"' {
            buf.append("\\\"");
            proof {
                reveal_strlit("\\\"");
                assert("\\\""@ =~= esc_char(c));
            }
        } else if c == '\\' {
            buf.append("\\\\");
            proof {
                reveal_strlit("\\\\");
                assert("\\\\"@ =~= esc_char(c));
            }
        } else if c == '\n' {
            buf.append("\\n");
            proof {
                reveal_strlit("\\n");
                assert("\\n"@ =~= esc_char(c));
            }
        } else if c == '\r' {
            buf.append("\\r");
            proof {
                reveal_strlit("\\r");
                assert("\\r"@ =~= esc_char(c));
            }
        } else if c == '\t' {
            buf.append("\\t");
            proof {
                reveal_strlit("\\t");
                assert("\\t"@ =~= esc_char(c));
            }
        } else {
            let piece = s.substring_char(i, i + 1);
            buf.append(piece);
            proof {
                assert(piece@ =~= esc_char(c));
            }
        }
        proof {
            let cs = seq![s@[i as int]];
            assert(s@.take(i as int + 1) =~= s@.take(i as int) + cs);
            lemma_json_escaped_append(s@.take(i as int), cs);
            assert(cs.skip(1) =~= Seq::<char>::empty());
            assert(json_escaped(Seq::<char>::empty()) =~= Seq::<char>::empty());
            assert(json_escaped(cs) == esc_char(cs[0]) + json_escaped(cs.skip(1)));
            assert(json_escaped(cs) =~= esc_char(s@[i as int]));
            assert(buf@ =~= pre + esc_char(s@[i as int]));
            assert(buf@ =~= old(buf)@ + json_escaped(s@.take(i as int + 1)));
        }
        i += 1;
    }
    proof {
        assert(s@.take(n as int) =~= s@);
    }
}

/// Appends `s` as a JSON string to `buf`.
fn push_quoted(buf: &mut String, s: &str)
    ensures
        final(buf)@ == old(buf)@ + json_quoted(s@),
{
    buf.append("\"");
    push_escaped(buf, s);
    buf.append("\"");
    proof {
        reveal_strlit("\"");
        assert("\""@ =~= seq!['"']);
        assert(old(buf)@ + seq!['"'] + json_escaped(s@) + seq!['"'] =~= old(buf)@ + json_quoted(
            s@,
        ));
    }
}

/// Appends `name` as a JSON object key, colon included, to `buf`.
fn push_key(buf: &mut String, name: &str)
    ensures
        final(buf)@ == old(buf)@ + json_quoted(name@) + seq![':'],
{
    push_quoted(buf, name);
    buf.append(":");
    proof {
        reveal_strlit(":");
        assert(":"@ =~= seq![':']);
    }
}

/// The separator owed before an entry: a comma when one is pending.
pub open spec fn sep_prefix(pending: bool) -> Seq<char> {
    if pending {
        seq![',']
    } else {
        Seq::empty()
    }
}

/// The characters of the document's timestamp key.
pub open spec fn time_key() -> Seq<char> {
    seq!['t', 'i', 'm', 'e']
}

/// The characters a timestamp entry appends to the document.
pub open spec fn time_entry(pending: bool, ts: Seq<char>) -> Seq<char> {
    sep_prefix(pending) + json_quoted(time_key()) + seq![':'] + json_quoted(ts)
}

/// The characters a scalar measurement entry appends to the document.
pub open spec fn scalar_entry(pending: bool, name: Seq<char>, value: Seq<char>) -> Seq<char> {
    sep_prefix(pending) + json_quoted(name) + seq![':'] + value
}

/// The characters that opening a named group appends to the document.
pub open spec fn group_open(pending: bool, name: Seq<char>) -> Seq<char> {
    sep_prefix(pending) + json_quoted(name) + seq![':', '{']
}

/// What finalizing appends: the synthesized default timestamp when none was
/// recorded and a default is configured, then the closing brace.
pub open spec fn close_suffix(pending: bool, recorded: bool, dflt: Option<Seq<char>>) -> Seq<
    char,
> {
    if !recorded && dflt is Some {
        time_entry(pending, dflt.unwrap()) + seq!['}']
    } else {
        seq!['}']
    }
}

/// A violation of the grouped-measurement protocol's state machine.
#[derive(Debug, Clone, Copy, PartialEq, Eq, Structural)]
pub enum MeasurementStreamError {
    UnexpectedTimestamp,
    UnexpectedEndOfData,
    UnexpectedEndOfGroup,
    UnexpectedStartOfGroup,
}

/// Why serialization failed; every failure is a protocol violation.
#[derive(Debug, Clone, Copy, PartialEq, Eq, Structural)]
pub enum ThinEdgeJsonSerializationError {
    MeasurementCollectorError(MeasurementStreamError),
}

/// The diagnostic text of each protocol violation.
pub open spec fn stream_error_text(e: MeasurementStreamError) -> Seq<char> {
    match e {
        MeasurementStreamError::UnexpectedTimestamp => "Unexpected time stamp within a group"@,
        MeasurementStreamError::UnexpectedEndOfData => "Unexpected end of data"@,
        MeasurementStreamError::UnexpectedEndOfGroup => "Unexpected end of group"@,
        MeasurementStreamError::UnexpectedStartOfGroup => "Unexpected start of group"@,
    }
}

impl MeasurementStreamError {
    /// The diagnostic text of this error.
    pub fn message(&self) -> (r: String)
        ensures
            r@ == stream_error_text(*self),
    {
        match self {
            MeasurementStreamError::UnexpectedTimestamp => "Unexpected time stamp within a group"
                .to_owned(),
            MeasurementStreamError::UnexpectedEndOfData => "Unexpected end of data".to_owned(),
            MeasurementStreamError::UnexpectedEndOfGroup => "Unexpected end of group".to_owned(),
            MeasurementStreamError::UnexpectedStartOfGroup => "Unexpected start of group"
                .to_owned(),
        }
    }
}

impl ThinEdgeJsonSerializationError {
    /// The diagnostic text of this error.
    pub fn message(&self) -> (r: String)
        ensures
            *self matches ThinEdgeJsonSerializationError::MeasurementCollectorError(e) ==> r@
                == stream_error_text(e),
    {
        match self {
            ThinEdgeJsonSerializationError::MeasurementCollectorError(e) => e.message(),
        }
    }
}

/// Accumulates measurement events into one canonical JSON object.
///
/// The document is a single object: an optional `"time"` entry, scalar
/// entries, and at most one depth-one named group of scalar entries.
pub struct ThinEdgeJsonSerializer {
    json: String,
    is_within_group: bool,
    needs_separator: bool,
    default_timestamp: Option<String>,
    timestamp_present: bool,
}

impl ThinEdgeJsonSerializer {
    /// The document text accumulated so far, its closing brace still owed.
    pub closed spec fn buffered(&self) -> Seq<char> {
        self.json@
    }

    /// Whether a group is currently open.
    pub closed spec fn within_group(&self) -> bool {
        self.is_within_group
    }

    /// Whether the next entry owes a leading comma.
    pub closed spec fn separator_pending(&self) -> bool {
        self.needs_separator
    }

    /// Whether a timestamp entry has been written.
    pub closed spec fn timestamp_recorded(&self) -> bool {
        self.timestamp_present
    }

    /// The configured default timestamp text, if any.
    pub closed spec fn default_time(&self) -> Option<Seq<char>> {
        match self.default_timestamp {
            Option::Some(s) => Option::Some(s@),
            Option::None => Option::None,
        }
    }

    /// Every observable part of the serializer is unchanged.
    pub open spec fn same_state(pre: Self, post: Self) -> bool {
        post.buffered() == pre.buffered() && post.within_group() == pre.within_group()
            && post.separator_pending() == pre.separator_pending() && post.timestamp_recorded()
            == pre.timestamp_recorded() && post.default_time() == pre.default_time()
    }

    /// A fresh serializer: an open object, no pending separator, no group,
    /// no timestamp recorded, and the given default timestamp as RFC 3339
    /// text, to be synthesized on finalize when no timestamp arrives.
    pub fn new_with_timestamp(default_time_text: Option<String>) -> (r: Self)
        ensures
            r.buffered() == seq!['{'],
            !r.within_group(),
            !r.separator_pending(),
            !r.timestamp_recorded(),
            r.default_time() == (match default_time_text {
                Option::Some(s) => Option::Some(s@),
                Option::None => Option::<Seq<char>>::None,
            }),
    {
        let mut json = String::new();
        json.append("{");
        proof {
            reveal_strlit("{");
            assert(json@ =~= seq!['{']);
        }
        ThinEdgeJsonSerializer {
            json,
            is_within_group: false,
            needs_separator: false,
            default_timestamp: default_time_text,
            timestamp_present: false,
        }
    }

    /// A fresh serializer without a default timestamp.
    pub fn new() -> (r: Self)
        ensures
            r.buffered() == seq!['{'],
            !r.within_group(),
            !r.separator_pending(),
            !r.timestamp_recorded(),
            r.default_time() is None,
    {
        Self::new_with_timestamp(None)
    }

    /// Records the document's timestamp from its RFC 3339 text: legal only
    /// outside a group, where it appends the `"time"` entry; within a group
    /// it fails and changes nothing.
    pub fn timestamp(&mut self, time_text: &str) -> (r: Result<
        (),
        ThinEdgeJsonSerializationError,
    >)
        ensures
            old(self).within_group() ==> r == Err::<(), _>(
                ThinEdgeJsonSerializationError::MeasurementCollectorError(
                    MeasurementStreamError::UnexpectedTimestamp,
                ),
            ) && Self::same_state(*old(self), *final(self)),
            !old(self).within_group() ==> r is Ok && final(self).buffered() == old(self).buffered()
                + time_entry(old(self).separator_pending(), time_text@) && !final(self).within_group() && final(self).separator_pending() && final(self).timestamp_recorded()
                && final(self).default_time() == old(self).default_time(),
    {
        if self.is_within_group {
            return Err(
                ThinEdgeJsonSerializationError::MeasurementCollectorError(
                    MeasurementStreamError::UnexpectedTimestamp,
                ),
            );
        }
        if self.needs_separator {
            self.json.append(",");
            proof {
                reveal_strlit(",");
                assert(","@ =~= seq![',']);
            }
        }
        push_key(&mut self.json, "time");
        push_quoted(&mut self.json, time_text);
        self.needs_separator = true;
        self.timestamp_present = true;
        proof {
            reveal_strlit("time");
            assert("time"@ =~= time_key());
            assert(self.json@ =~= old(self).buffered() + time_entry(
                old(self).separator_pending(),
                time_text@,
            ));
        }
        Ok(())
    }

    /// Appends a scalar measurement entry to the open object, its value text
    /// embedded verbatim; legal in either state.
    pub fn measurement(&mut self, name: &str, value: &str) -> (r: Result<
        (),
        ThinEdgeJsonSerializationError,
    >)
        ensures
            r is Ok,
            final(self).buffered() == old(self).buffered() + scalar_entry(
                old(self).separator_pending(),
                name@,
                value@,
            ),
            final(self).within_group() == old(self).within_group(),
            final(self).separator_pending(),
            final(self).timestamp_recorded() == old(self).timestamp_recorded(),
            final(self).default_time() == old(self).default_time(),
    {
        if self.needs_separator {
            self.json.append(",");
            proof {
                reveal_strlit(",");
                assert(","@ =~= seq![',']);
            }
        }
        push_key(&mut self.json, name);
        self.json.append(value);
        self.needs_separator = true;
        proof {
            assert(self.json@ =~= old(self).buffered() + scalar_entry(
                old(self).separator_pending(),
                name@,
                value@,
            ));
        }
        Ok(())
    }

    /// Opens a named group: legal only outside a group; re-entrant grouping
    /// fails and changes nothing.
    pub fn start_group(&mut self, group: &str) -> (r: Result<
        (),
        ThinEdgeJsonSerializationError,
    >)
        ensures
            old(self).within_group() ==> r == Err::<(), _>(
                ThinEdgeJsonSerializationError::MeasurementCollectorError(
                    MeasurementStreamError::UnexpectedStartOfGroup,
                ),
            ) && Self::same_state(*old(self), *final(self)),
            !old(self).within_group() ==> r is Ok && final(self).buffered() == old(self).buffered()
                + group_open(old(self).separator_pending(), group@) && final(self).within_group()
                && !final(self).separator_pending() && final(self).timestamp_recorded() == old(
                self,
            ).timestamp_recorded() && final(self).default_time() == old(self).default_time(),
    {
        if self.is_within_group {
            return Err(
                ThinEdgeJsonSerializationError::MeasurementCollectorError(
                    MeasurementStreamError::UnexpectedStartOfGroup,
                ),
            );
        }
        if self.needs_separator {
            self.json.append(",");
            proof {
                reveal_strlit(",");
                assert(","@ =~= seq![',']);
            }
        }
        push_key(&mut self.json, group);
        self.json.append("{");
        self.needs_separator = false;
        self.is_within_group = true;
        proof {
            reveal_strlit("{");
            assert("{"@ =~= seq!['{']);
            assert(self.json@ =~= old(self).buffered() + group_open(
                old(self).separator_pending(),
                group@,
            ));
        }
        Ok(())
    }

    /// Closes the open group: legal only within one; without an open group
    /// it fails and changes nothing.
    pub fn end_group(&mut self) -> (r: Result<(), ThinEdgeJsonSerializationError>)
        ensures
            !old(self).within_group() ==> r == Err::<(), _>(
                ThinEdgeJsonSerializationError::MeasurementCollectorError(
                    MeasurementStreamError::UnexpectedEndOfGroup,
                ),
            ) && Self::same_state(*old(self), *final(self)),
            old(self).within_group() ==> r is Ok && final(self).buffered() == old(self).buffered()
                + seq!['}'] && !final(self).within_group() && final(self).separator_pending()
                && final(self).timestamp_recorded() == old(self).timestamp_recorded() && final(self).default_time() == old(self).default_time(),
    {
        if !self.is_within_group {
            return Err(
                ThinEdgeJsonSerializationError::MeasurementCollectorError(
                    MeasurementStreamError::UnexpectedEndOfGroup,
                ),
            );
        }
        self.json.append("}");
        self.needs_separator = true;
        self.is_within_group = false;
        proof {
            reveal_strlit("}");
            assert("}"@ =~= seq!['}']);
            assert(self.json@ =~= old(self).buffered() + seq!['}']);
        }
        Ok(())
    }

    /// Ends the document: fails on an unterminated group; otherwise writes
    /// the configured default timestamp when none was recorded, then the
    /// closing brace.
    fn end(&mut self) -> (r: Result<(), ThinEdgeJsonSerializationError>)
        ensures
            old(self).within_group() ==> r == Err::<(), _>(
                ThinEdgeJsonSerializationError::MeasurementCollectorError(
                    MeasurementStreamError::UnexpectedEndOfData,
                ),
            ) && Self::same_state(*old(self), *final(self)),
            !old(self).within_group() ==> r is Ok && final(self).buffered() == old(self).buffered()
                + close_suffix(
                old(self).separator_pending(),
                old(self).timestamp_recorded(),
                old(self).default_time(),
            ),
    {
        if self.is_within_group {
            return Err(
                ThinEdgeJsonSerializationError::MeasurementCollectorError(
                    MeasurementStreamError::UnexpectedEndOfData,
                ),
            );
        }
        if !self.timestamp_present {
            let default_text = match &self.default_timestamp {
                Some(s) => Some(s.clone()),
                None => None,
            };
            if let Some(text) = default_text {
                match self.timestamp(text.as_str()) {
                    Ok(()) => (),
                    Err(e) => {
                        return Err(e);
                    },
                }
            }
        }
        self.json.append("}");
        proof {
            reveal_strlit("}");
            assert("}"@ =~= seq!['}']);
            assert(self.json@ =~= old(self).buffered() + close_suffix(
                old(self).separator_pending(),
                old(self).timestamp_recorded(),
                old(self).default_time(),
            ));
        }
        Ok(())
    }

    /// Finalizes the document and yields its text, consuming the serializer:
    /// an unterminated group is an error and no partial output is exposed.
    pub fn into_string(self) -> (r: Result<String, ThinEdgeJsonSerializationError>)
        ensures
            self.within_group() ==> r == Err::<String, _>(
                ThinEdgeJsonSerializationError::MeasurementCollectorError(
                    MeasurementStreamError::UnexpectedEndOfData,
                ),
            ),
            !self.within_group() ==> (r matches Ok(out) && out@ == self.buffered() + close_suffix(
                self.separator_pending(),
                self.timestamp_recorded(),
                self.default_time(),
            )),
    {
        let mut this = self;
        match this.end() {
            Ok(()) => (),
            Err(e) => {
                return Err(e);
            },
        }
        Ok(this.json)
    }

    /// Finalizes the document and yields its UTF-8 bytes, consuming the
    /// serializer.
    pub fn bytes(self) -> (r: Result<Vec<u8>, ThinEdgeJsonSerializationError>)
        ensures
            self.within_group() ==> r == Err::<Vec<u8>, _>(
                ThinEdgeJsonSerializationError::MeasurementCollectorError(
                    MeasurementStreamError::UnexpectedEndOfData,
                ),
            ),
            !self.within_group() ==> (r matches Ok(out) && out@ == encode_utf8(
                self.buffered() + close_suffix(
                    self.separator_pending(),
                    self.timestamp_recorded(),
                    self.default_time(),
                ),
            )),
    {
        let text = match self.into_string() {
            Ok(text) => text,
            Err(e) => {
                return Err(e);
            },
        };
        Ok(text.as_str().as_bytes_vec())
    }
}

impl Default for ThinEdgeJsonSerializer {
    /// A fresh serializer without a default timestamp.
    fn default() -> (r: Self)
        ensures
            r.buffered() == seq!['{'],
            !r.within_group(),
            !r.separator_pending(),
            !r.timestamp_recorded(),
            r.default_time() is None,
    {
        Self::new()
    }
}

} // verus!
