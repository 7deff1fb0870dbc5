//! The checkpoint store: the durable record of the discovery worker's
//! pagination cursors, together with its textual encoding and its parser.
//! Saving renders the checkpoint as one line of JSON; loading parses it
//! back, and `from_stored` turns absence or corruption of the stored text
//! into the cold-start checkpoint with every cursor unset, never an error.

use vstd::prelude::*;
use vstd::string::StrSliceExecFns;
use vstd::string::StringExecFns;

verus! {

/// Mathematical model of a checkpoint: the three pagination cursors, each
/// either unset or a transaction signature rendered as text.
pub struct CheckpointModel {
    pub newest_transaction: Option<Seq<char>>,
    pub before: Option<Seq<char>>,
    pub until: Option<Seq<char>>,
}

/// Characters admitted in a signature rendered as text (the base-58
/// alphabet is a subset of these).
pub open spec fn sig_char(c: char) -> bool {
    ('0' <= c && c <= '9') || ('A' <= c && c <= 'Z') || ('a' <= c && c <= 'z')
}

pub open spec fn sig_seq_ok(s: Seq<char>) -> bool {
    forall|i: int| 0 <= i < s.len() ==> sig_char(#[trigger] s[i])
}

pub open spec fn opt_sig_ok(o: Option<Seq<char>>) -> bool {
    match o {
        Option::None => true,
        Option::Some(s) => sig_seq_ok(s),
    }
}

impl CheckpointModel {
    /// A checkpoint is well formed when every set cursor holds only
    /// signature characters.
    pub open spec fn wf(self) -> bool {
        &&& opt_sig_ok(self.newest_transaction)
        &&& opt_sig_ok(self.before)
        &&& opt_sig_ok(self.until)
    }

    /// The cold-start checkpoint: every cursor unset.
    pub open spec fn cold_start() -> CheckpointModel {
        CheckpointModel { newest_transaction: None, before: None, until: None }
    }
}

/// Durable record of the discovery worker's pagination progress.
#[derive(Debug, Clone, PartialEq, Eq)]
pub struct Checkpoint {
    pub newest_transaction: Option<String>,
    pub before: Option<String>,
    pub until: Option<String>,
}

pub open spec fn opt_view(o: Option<String>) -> Option<Seq<char>> {
    match o {
        Option::None => None,
        Option::Some(s) => Some(s@),
    }
}

impl View for Checkpoint {
    type V = CheckpointModel;

    open spec fn view(&self) -> CheckpointModel {
        CheckpointModel {
            newest_transaction: opt_view(self.newest_transaction),
            before: opt_view(self.before),
            until: opt_view(self.until),
        }
    }
}

/// How one cursor is rendered: JSON `null` when unset, otherwise the
/// signature text between double quotes (signature characters never need
/// escaping).
pub open spec fn enc_opt(o: Option<Seq<char>>) -> Seq<char> {
    match o {
        Option::None => "null"@,
        Option::Some(s) => seq!['"'] + s + seq!['"'],
    }
}

pub open spec fn lit_newest() -> Seq<char> {
    "{\"newest_transaction\":"@
}

pub open spec fn lit_before() -> Seq<char> {
    ",\"before\":"@
}

pub open spec fn lit_until() -> Seq<char> {
    ",\"until\":"@
}

pub open spec fn lit_close() -> Seq<char> {
    "}"@
}

/// The stored text of a checkpoint: one JSON object with the three cursors
/// in a fixed field order.
pub open spec fn spec_encode(m: CheckpointModel) -> Seq<char> {
    lit_newest() + enc_opt(m.newest_transaction) + lit_before() + enc_opt(m.before) + lit_until()
        + enc_opt(m.until) + lit_close()
}

/// Boundaries of the pieces of `spec_encode(m)`, in order.
pub open spec fn q1() -> int {
    lit_newest().len() as int
}

pub open spec fn q2(m: CheckpointModel) -> int {
    q1() + enc_opt(m.newest_transaction).len()
}

pub open spec fn q3(m: CheckpointModel) -> int {
    q2(m) + lit_before().len()
}

pub open spec fn q4(m: CheckpointModel) -> int {
    q3(m) + enc_opt(m.before).len()
}

pub open spec fn q5(m: CheckpointModel) -> int {
    q4(m) + lit_until().len()
}

pub open spec fn q6(m: CheckpointModel) -> int {
    q5(m) + enc_opt(m.until).len()
}

pub open spec fn q7(m: CheckpointModel) -> int {
    q6(m) + lit_close().len()
}

/// The encoding decomposes at the piece boundaries.
pub proof fn lemma_encode_structure(m: CheckpointModel)
    ensures
        spec_encode(m).len() == q7(m),
        spec_encode(m).subrange(0, q1()) == lit_newest(),
        spec_encode(m).subrange(q1(), q2(m)) == enc_opt(m.newest_transaction),
        spec_encode(m).subrange(q2(m), q3(m)) == lit_before(),
        spec_encode(m).subrange(q3(m), q4(m)) == enc_opt(m.before),
        spec_encode(m).subrange(q4(m), q5(m)) == lit_until(),
        spec_encode(m).subrange(q5(m), q6(m)) == enc_opt(m.until),
        spec_encode(m).subrange(q6(m), q7(m)) == lit_close(),
{
    let s = spec_encode(m);
    assert(s.subrange(0, q1()) =~= lit_newest());
    assert(s.subrange(q1(), q2(m)) =~= enc_opt(m.newest_transaction));
    assert(s.subrange(q2(m), q3(m)) =~= lit_before());
    assert(s.subrange(q3(m), q4(m)) =~= enc_opt(m.before));
    assert(s.subrange(q4(m), q5(m)) =~= lit_until());
    assert(s.subrange(q5(m), q6(m)) =~= enc_opt(m.until));
    assert(s.subrange(q6(m), q7(m)) =~= lit_close());
}

fn is_sig_char(c: char) -> (r: bool)
    ensures
        r == sig_char(c),
{
    ('0' <= c && c <= '9') || ('A' <= c && c <= 'Z') || ('a' <= c && c <= 'z')
}

/// True exactly when `lit` occurs in `s` at position `pos`.
fn starts_with_at(s: &str, s_len: usize, pos: usize, lit: &str) -> (r: bool)
    requires
        s_len == s@.len(),
        pos <= s_len,
    ensures
        r <==> (pos + lit@.len() <= s@.len() && s@.subrange(pos as int, pos + lit@.len())
            == lit@),
{
    let lit_len = lit.unicode_len();
    if s_len - pos < lit_len {
        return false;
    }
    let mut i: usize = 0;
    while i < lit_len
        invariant
            s_len == s@.len(),
            lit_len == lit@.len(),
            pos + lit_len <= s_len,
            i <= lit_len,
            forall|j: int| 0 <= j < i ==> s@[pos + j] == lit@[j],
        decreases lit_len - i,
    {
        if s.get_char(pos + i) != lit.get_char(i) {
            proof {
                if s@.subrange(pos as int, pos + lit@.len()) == lit@ {
                    assert(s@.subrange(pos as int, pos + lit@.len())[i as int] == s@[pos + i]);
                }
            }
            return false;
        }
        i += 1;
    }
    proof {
        assert(s@.subrange(pos as int, pos + lit@.len()) =~= lit@);
    }
    true
}

/// First position at or after `start` whose character is not a signature
/// character (or the end of the text).
fn scan_sig_chars(s: &str, s_len: usize, start: usize) -> (j: usize)
    requires
        s_len == s@.len(),
        start <= s_len,
    ensures
        start <= j <= s_len,
        forall|k: int| start <= k < j ==> sig_char(#[trigger] s@[k]),
        j < s_len ==> !sig_char(s@[j as int]),
{
    let mut j = start;
    while j < s_len
        invariant
            s_len == s@.len(),
            start <= j <= s_len,
            forall|k: int| start <= k < j ==> sig_char(#[trigger] s@[k]),
        decreases s_len - j,
    {
        if !is_sig_char(s.get_char(j)) {
            return j;
        }
        j += 1;
    }
    j
}

/// Parse one cursor value at position `pos`: `null` or a quoted signature.
/// Succeeds on exactly the texts `enc_opt` produces from a well-formed
/// cursor, and then yields that cursor and the position one past it.
fn parse_opt_sig(s: &str, s_len: usize, pos: usize) -> (r: Option<(Option<String>, usize)>)
    requires
        s_len == s@.len(),
        pos <= s_len,
    ensures
        r matches Some(p) ==> {
            &&& pos <= p.1 <= s@.len()
            &&& opt_sig_ok(opt_view(p.0))
            &&& s@.subrange(pos as int, p.1 as int) == enc_opt(opt_view(p.0))
        },
        forall|o: Option<Seq<char>>|
            #![trigger enc_opt(o)]
            (opt_sig_ok(o) && pos + enc_opt(o).len() <= s@.len() && s@.subrange(
                pos as int,
                pos + enc_opt(o).len(),
            ) == enc_opt(o)) ==> (r matches Some(p) && opt_view(p.0) == o && p.1 == pos
                + enc_opt(o).len()),
{
    proof {
        reveal_strlit("null");
    }
    if pos < s_len && s.get_char(pos) == '"' {
        let start = pos + 1;
        let j = scan_sig_chars(s, s_len, start);
        if j < s_len && s.get_char(j) == '"' {
            let content = s.substring_char(start, j).to_owned();
            let end = j + 1;
            proof {
                assert(s@.subrange(pos as int, end as int) =~= enc_opt(Some(content@)));
                assert forall|o: Option<Seq<char>>|
                    #![trigger enc_opt(o)]
                    (opt_sig_ok(o) && pos + enc_opt(o).len() <= s@.len() && s@.subrange(
                        pos as int,
                        pos + enc_opt(o).len(),
                    ) == enc_opt(o)) implies (o == Some(content@) && pos + enc_opt(o).len() == end
                    as int) by {
                    lemma_value_at_is_forced(s@, pos as int, j as int, o);
                }
            }
            Some((Some(content), end))
        } else {
            proof {
                assert forall|o: Option<Seq<char>>|
                    #![trigger enc_opt(o)]
                    (opt_sig_ok(o) && pos + enc_opt(o).len() <= s@.len() && s@.subrange(
                        pos as int,
                        pos + enc_opt(o).len(),
                    ) == enc_opt(o)) implies false by {
                    lemma_value_at_is_forced(s@, pos as int, j as int, o);
                }
            }
            None
        }
    } else {
        if starts_with_at(s, s_len, pos, "null") {
            let end = pos + 4;
            proof {
                assert(s@.subrange(pos as int, end as int) == enc_opt(
                    Option::<Seq<char>>::None,
                ));
                assert forall|o: Option<Seq<char>>|
                    #![trigger enc_opt(o)]
                    (opt_sig_ok(o) && pos + enc_opt(o).len() <= s@.len() && s@.subrange(
                        pos as int,
                        pos + enc_opt(o).len(),
                    ) == enc_opt(o)) implies (o is None && pos + enc_opt(o).len() == end as int) by {
                    if o is Some {
                        let c = o->Some_0;
                        assert(enc_opt(o)[0] == '"');
                        assert(s@[pos as int] == '"');
                    }
                }
            }
            Some((None, end))
        } else {
            proof {
                assert forall|o: Option<Seq<char>>|
                    #![trigger enc_opt(o)]
                    (opt_sig_ok(o) && pos + enc_opt(o).len() <= s@.len() && s@.subrange(
                        pos as int,
                        pos + enc_opt(o).len(),
                    ) == enc_opt(o)) implies false by {
                    if o is Some {
                        assert(enc_opt(o)[0] == '"');
                        assert(s@[pos as int] == '"');
                    } else {
                        assert(s@.subrange(pos as int, pos + 4) == "null"@);
                    }
                }
            }
            None
        }
    }
}

/// In the quoted branch: when an encoded cursor sits at `pos` and the scan
/// over signature characters stopped at `j`, the cursor is forced: it is
/// quoted, its content is exactly the scanned range, and `j` is its closing
/// quote.
proof fn lemma_value_at_is_forced(s: Seq<char>, pos: int, j: int, o: Option<Seq<char>>)
    requires
        0 <= pos < s.len(),
        s[pos] == '"',
        pos + 1 <= j <= s.len(),
        forall|k: int| pos + 1 <= k < j ==> sig_char(#[trigger] s[k]),
        j < s.len() ==> !sig_char(s[j]),
        opt_sig_ok(o),
        pos + enc_opt(o).len() <= s.len(),
        s.subrange(pos, pos + enc_opt(o).len()) == enc_opt(o),
    ensures
        o == Some(s.subrange(pos + 1, j)),
        pos + enc_opt(o).len() == j + 1,
        j < s.len(),
        s[j] == '"',
{
    reveal_strlit("null");
    if o is None {
        assert(s.subrange(pos, pos + 4)[0] == 'n');
        assert(s[pos] == 'n');
    } else {
        let c = o->Some_0;
        let e = enc_opt(o);
        assert(e.len() == c.len() + 2);
        // the characters of the encoded content sit right after the quote
        assert forall|k: int| 0 <= k < c.len() implies s[pos + 1 + k] == c[k] by {
            assert(s.subrange(pos, pos + e.len())[1 + k] == s[pos + 1 + k]);
            assert(e[1 + k] == c[k]);
        }
        assert(s.subrange(pos, pos + e.len())[e.len() - 1] == s[pos + e.len() - 1]);
        assert(s[pos + c.len() + 1] == '"');
        // the scan stops exactly at the closing quote
        assert(!sig_char('"'));
        if j < pos + 1 + c.len() {
            assert(s[j] == c[j - pos - 1]);
            assert(sig_char(c[j - pos - 1]));
            assert(false);
        }
        if j > pos + 1 + c.len() {
            assert(sig_char(s[pos + 1 + c.len()]));
            assert(false);
        }
        assert(j == pos + 1 + c.len());
        assert(c =~= s.subrange(pos + 1, j));
    }
}

/// Append one cursor's rendering to the output.
fn append_opt(out: &mut String, o: &Option<String>)
    ensures
        final(out)@ == old(out)@ + enc_opt(opt_view(*o)),
{
    match o {
        None => {
            out.append("null");
        },
        Some(sig) => {
            out.append("\"");
            out.append(sig.as_str());
            out.append("\"");
            proof {
                reveal_strlit("\"");
                assert(out@ =~= old(out)@ + enc_opt(opt_view(*o)));
            }
        },
    }
}

impl Checkpoint {
    pub open spec fn wf(self) -> bool {
        self@.wf()
    }

    /// The checkpoint a cold start begins from: every cursor unset.
    pub fn new() -> (r: Checkpoint)
        ensures
            r@ == CheckpointModel::cold_start(),
            r@.wf(),
    {
        Checkpoint { newest_transaction: None, before: None, until: None }
    }

    /// Whether every set cursor holds only signature characters, so that the
    /// checkpoint survives a save/load round trip.
    pub fn is_wf(&self) -> (r: bool)
        ensures
            r == self@.wf(),
    {
        opt_sig_text_ok(&self.newest_transaction) && opt_sig_text_ok(&self.before)
            && opt_sig_text_ok(&self.until)
    }

    /// Render the checkpoint as the text to persist.
    pub fn encode(&self) -> (out: String)
        ensures
            out@ == spec_encode(self@),
    {
        let mut out = String::new();
        out.append("{\"newest_transaction\":");
        append_opt(&mut out, &self.newest_transaction);
        out.append(",\"before\":");
        append_opt(&mut out, &self.before);
        out.append(",\"until\":");
        append_opt(&mut out, &self.until);
        out.append("}");
        proof {
            assert(out@ =~= spec_encode(self@));
        }
        out
    }

    /// Parse a persisted checkpoint.  Succeeds on exactly the texts `encode`
    /// produces from well-formed checkpoints; in particular, parsing the
    /// encoding of a well-formed checkpoint gives that checkpoint back — the
    /// save/load round trip loses nothing.
    #[verifier::rlimit(100)]
    #[verifier::spinoff_prover]
    pub fn parse(s: &str) -> (r: Option<Checkpoint>)
        ensures
            r matches Some(cp) ==> cp@.wf() && s@ == spec_encode(cp@),
            forall|m: CheckpointModel|
                #![trigger spec_encode(m)]
                m.wf() && s@ == spec_encode(m) ==> (r matches Some(cp) && cp@ == m),
    {
        let s_len = s.unicode_len();
        let l1 = "{\"newest_transaction\":";
        if !starts_with_at(s, s_len, 0, l1) {
            proof {
                assert forall|m: CheckpointModel|
                    #![trigger spec_encode(m)]
                    m.wf() && s@ == spec_encode(m) implies false by {
                    lemma_encode_structure(m);
                }
            }
            return None;
        }
        let pos1 = l1.unicode_len();
        let v1 = parse_opt_sig(s, s_len, pos1);
        if v1.is_none() {
            proof {
                assert forall|m: CheckpointModel|
                    #![trigger spec_encode(m)]
                    m.wf() && s@ == spec_encode(m) implies false by {
                    lemma_encode_structure(m);
                    assert(enc_opt(m.newest_transaction) == s@.subrange(q1(), q2(m)));
                }
            }
            return None;
        }
        let (newest, pos2) = v1.unwrap();
        let l2 = ",\"before\":";
        if !starts_with_at(s, s_len, pos2, l2) {
            proof {
                assert forall|m: CheckpointModel|
                    #![trigger spec_encode(m)]
                    m.wf() && s@ == spec_encode(m) implies false by {
                    lemma_encode_structure(m);
                    assert(enc_opt(m.newest_transaction) == s@.subrange(q1(), q2(m)));
                    assert(pos2 as int == q2(m));
                    assert(lit_before() == s@.subrange(q2(m), q3(m)));
                }
            }
            return None;
        }
        let pos3 = pos2 + l2.unicode_len();
        let v2 = parse_opt_sig(s, s_len, pos3);
        if v2.is_none() {
            proof {
                assert forall|m: CheckpointModel|
                    #![trigger spec_encode(m)]
                    m.wf() && s@ == spec_encode(m) implies false by {
                    lemma_encode_structure(m);
                    assert(enc_opt(m.newest_transaction) == s@.subrange(q1(), q2(m)));
                    assert(pos2 as int == q2(m));
                    assert(pos3 as int == q3(m));
                    assert(enc_opt(m.before) == s@.subrange(q3(m), q4(m)));
                }
            }
            return None;
        }
        let (before, pos4) = v2.unwrap();
        let l3 = ",\"until\":";
        if !starts_with_at(s, s_len, pos4, l3) {
            proof {
                assert forall|m: CheckpointModel|
                    #![trigger spec_encode(m)]
                    m.wf() && s@ == spec_encode(m) implies false by {
                    lemma_encode_structure(m);
                    assert(enc_opt(m.newest_transaction) == s@.subrange(q1(), q2(m)));
                    assert(pos2 as int == q2(m));
                    assert(pos3 as int == q3(m));
                    assert(enc_opt(m.before) == s@.subrange(q3(m), q4(m)));
                    assert(pos4 as int == q4(m));
                    assert(lit_until() == s@.subrange(q4(m), q5(m)));
                }
            }
            return None;
        }
        let pos5 = pos4 + l3.unicode_len();
        let v3 = parse_opt_sig(s, s_len, pos5);
        if v3.is_none() {
            proof {
                assert forall|m: CheckpointModel|
                    #![trigger spec_encode(m)]
                    m.wf() && s@ == spec_encode(m) implies false by {
                    lemma_encode_structure(m);
                    assert(enc_opt(m.newest_transaction) == s@.subrange(q1(), q2(m)));
                    assert(pos2 as int == q2(m));
                    assert(pos3 as int == q3(m));
                    assert(enc_opt(m.before) == s@.subrange(q3(m), q4(m)));
                    assert(pos4 as int == q4(m));
                    assert(pos5 as int == q5(m));
                    assert(enc_opt(m.until) == s@.subrange(q5(m), q6(m)));
                }
            }
            return None;
        }
        let (until, pos6) = v3.unwrap();
        let l4 = "}";
        if !starts_with_at(s, s_len, pos6, l4) {
            proof {
                assert forall|m: CheckpointModel|
                    #![trigger spec_encode(m)]
                    m.wf() && s@ == spec_encode(m) implies false by {
                    lemma_encode_structure(m);
                    assert(enc_opt(m.newest_transaction) == s@.subrange(q1(), q2(m)));
                    assert(pos2 as int == q2(m));
                    assert(pos3 as int == q3(m));
                    assert(enc_opt(m.before) == s@.subrange(q3(m), q4(m)));
                    assert(pos4 as int == q4(m));
                    assert(pos5 as int == q5(m));
                    assert(enc_opt(m.until) == s@.subrange(q5(m), q6(m)));
                    assert(pos6 as int == q6(m));
                    assert(lit_close() == s@.subrange(q6(m), q7(m)));
                }
            }
            return None;
        }
        let pos7 = pos6 + l4.unicode_len();
        if pos7 != s_len {
            proof {
                assert forall|m: CheckpointModel|
                    #![trigger spec_encode(m)]
                    m.wf() && s@ == spec_encode(m) implies false by {
                    lemma_encode_structure(m);
                    assert(enc_opt(m.newest_transaction) == s@.subrange(q1(), q2(m)));
                    assert(pos2 as int == q2(m));
                    assert(pos3 as int == q3(m));
                    assert(enc_opt(m.before) == s@.subrange(q3(m), q4(m)));
                    assert(pos4 as int == q4(m));
                    assert(pos5 as int == q5(m));
                    assert(enc_opt(m.until) == s@.subrange(q5(m), q6(m)));
                    assert(pos6 as int == q6(m));
                    assert(pos7 as int == q7(m));
                }
            }
            return None;
        }
        let cp = Checkpoint { newest_transaction: newest, before, until };
        proof {
            lemma_encode_structure(cp@);
            assert(pos2 as int == q2(cp@));
            assert(pos3 as int == q3(cp@));
            assert(pos4 as int == q4(cp@));
            assert(pos5 as int == q5(cp@));
            assert(pos6 as int == q6(cp@));
            assert(pos7 as int == q7(cp@));
            assert(s@ =~= spec_encode(cp@)) by {
                lemma_encode_structure(cp@);
                assert forall|i: int| 0 <= i < s@.len() implies s@[i] == spec_encode(cp@)[i] by {
                    let e = spec_encode(cp@);
                    if i < q1() {
                        assert(s@.subrange(0, pos1 as int)[i] == s@[i]);
                        assert(e.subrange(0, q1())[i] == e[i]);
                    } else if i < q2(cp@) {
                        assert(s@.subrange(pos1 as int, pos2 as int)[i - q1()] == s@[i]);
                        assert(e.subrange(q1(), q2(cp@))[i - q1()] == e[i]);
                    } else if i < q3(cp@) {
                        assert(s@.subrange(pos2 as int, pos3 as int)[i - q2(cp@)] == s@[i]);
                        assert(e.subrange(q2(cp@), q3(cp@))[i - q2(cp@)] == e[i]);
                    } else if i < q4(cp@) {
                        assert(s@.subrange(pos3 as int, pos4 as int)[i - q3(cp@)] == s@[i]);
                        assert(e.subrange(q3(cp@), q4(cp@))[i - q3(cp@)] == e[i]);
                    } else if i < q5(cp@) {
                        assert(s@.subrange(pos4 as int, pos5 as int)[i - q4(cp@)] == s@[i]);
                        assert(e.subrange(q4(cp@), q5(cp@))[i - q4(cp@)] == e[i]);
                    } else if i < q6(cp@) {
                        assert(s@.subrange(pos5 as int, pos6 as int)[i - q5(cp@)] == s@[i]);
                        assert(e.subrange(q5(cp@), q6(cp@))[i - q5(cp@)] == e[i]);
                    } else {
                        assert(s@.subrange(pos6 as int, pos7 as int)[i - q6(cp@)] == s@[i]);
                        assert(e.subrange(q6(cp@), q7(cp@))[i - q6(cp@)] == e[i]);
                    }
                }
            }
            assert forall|m: CheckpointModel|
                #![trigger spec_encode(m)]
                m.wf() && s@ == spec_encode(m) implies cp@ == m by {
                lemma_encode_structure(m);
                assert(enc_opt(m.newest_transaction) == s@.subrange(q1(), q2(m)));
                assert(pos2 as int == q2(m));
                assert(opt_view(cp.newest_transaction) == m.newest_transaction);
                assert(pos3 as int == q3(m));
                assert(enc_opt(m.before) == s@.subrange(q3(m), q4(m)));
                assert(pos4 as int == q4(m));
                assert(opt_view(cp.before) == m.before);
                assert(pos5 as int == q5(m));
                assert(enc_opt(m.until) == s@.subrange(q5(m), q6(m)));
                assert(opt_view(cp.until) == m.until);
            }
        }
        Some(cp)
    }

    /// Load the checkpoint from what the durable store handed back: the
    /// stored text, or nothing if no checkpoint exists.  Absence or
    /// corruption never fails the caller: any text that is not the encoding
    /// of a well-formed checkpoint yields the cold-start checkpoint.
    pub fn from_stored(stored: Option<&String>) -> (r: Checkpoint)
        ensures
            r@.wf(),
            stored is None ==> r@ == CheckpointModel::cold_start(),
            stored matches Some(text) ==> {
                &&& forall|m: CheckpointModel|
                    #![trigger spec_encode(m)]
                    m.wf() && text@ == spec_encode(m) ==> r@ == m
                &&& (forall|m: CheckpointModel|
                    #![trigger spec_encode(m)]
                    m.wf() ==> text@ != spec_encode(m)) ==> r@ == CheckpointModel::cold_start()
            },
    {
        match stored {
            None => Checkpoint::new(),
            Some(text) => {
                match Checkpoint::parse(text.as_str()) {
                    Some(cp) => cp,
                    None => Checkpoint::new(),
                }
            },
        }
    }
}

fn opt_sig_text_ok(o: &Option<String>) -> (r: bool)
    ensures
        r == opt_sig_ok(opt_view(*o)),
{
    match o {
        None => true,
        Some(sig) => sig_text_ok(sig.as_str()),
    }
}

/// Whether a text holds only signature characters.
pub fn sig_text_ok(s: &str) -> (r: bool)
    ensures
        r == sig_seq_ok(s@),
{
    let s_len = s.unicode_len();
    let j = scan_sig_chars(s, s_len, 0);
    j == s_len
}

} // verus!
