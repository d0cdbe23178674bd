//! Serialization of a rewritten dependency into the flattened inline form.
//!
//! A rewritten declaration replaces one logical assignment inside a
//! dependency section, so it is rendered on a single line:
//! `name = { path = "../a", optional = true }`. String values are quoted,
//! with quotes and backslashes escaped.
use vstd::prelude::*;

use crate::chars::push_all;
use crate::deps::DepDetail;
use crate::deps::DepDetailView;
use crate::chars::chars_list_view;
use crate::deps::opt_chars_view;
use crate::toks::spec_eq_sep;
use crate::toks::spec_features;
use crate::toks::spec_open_bracket;
use crate::toks::spec_close_bracket;
use crate::toks::spec_comma_sep;
use crate::toks::spec_true_word;
use crate::toks::spec_false_word;
use crate::toks::spec_optional;
use crate::toks::spec_default_features;
use crate::toks::spec_version;
use crate::toks::spec_path;
use crate::toks::spec_git;
use crate::toks::spec_rev;
use crate::toks::spec_open_brace;
use crate::toks::spec_close_brace;
use crate::toks::tok_eq_sep;
use crate::toks::tok_comma_sep;
use crate::toks::tok_features;
use crate::toks::tok_open_bracket;
use crate::toks::tok_close_bracket;
use crate::toks::tok_version;
use crate::toks::tok_path;
use crate::toks::tok_git;
use crate::toks::tok_rev;
use crate::toks::tok_optional;
use crate::toks::tok_true_word;
use crate::toks::tok_false_word;
use crate::toks::tok_default_features;
use crate::toks::tok_open_brace;
use crate::toks::tok_close_brace;

verus! {

/// How one character is written inside a quoted string.
pub open spec fn esc_char(c: char) -> Seq<char> {
    if c == '"' || c == '\\' {
        seq!['\\', c]
    } else {
        seq![c]
    }
}

/// How a whole string is written inside quotes.
pub open spec fn esc(s: Seq<char>) -> Seq<char>
    decreases s.len(),
{
    if s.len() == 0 {
        Seq::empty()
    } else {
        esc_char(s.first()) + esc(s.drop_first())
    }
}

/// A quoted string value.
pub open spec fn quoted(s: Seq<char>) -> Seq<char> {
    seq!['"'] + esc(s) + seq!['"']
}

/// `parts` joined by `sep`.
pub open spec fn join_sep(parts: Seq<Seq<char>>, sep: Seq<char>) -> Seq<char>
    decreases parts.len(),
{
    if parts.len() == 0 {
        Seq::empty()
    } else if parts.len() == 1 {
        parts[0]
    } else {
        parts[0] + sep + join_sep(parts.drop_first(), sep)
    }
}

/// One `label = "value"` item.
pub open spec fn kv_str(label: Seq<char>, value: Seq<char>) -> Seq<char> {
    label + spec_eq_sep() + quoted(value)
}

/// The items an optional string field contributes: none when absent.
pub open spec fn opt_field(label: Seq<char>, o: Option<Seq<char>>) -> Seq<Seq<char>> {
    match o {
        Option::None => Seq::empty(),
        Option::Some(v) => seq![kv_str(label, v)],
    }
}

/// The item a feature list contributes: none when the list is empty, else
/// `features = ["a", "b"]`.
pub open spec fn features_field(fs: Seq<Seq<char>>) -> Seq<Seq<char>> {
    if fs.len() == 0 {
        Seq::empty()
    } else {
        seq![
            spec_features() + spec_open_bracket() + join_sep(
                Seq::new(fs.len(), |i: int| quoted(fs[i])),
                spec_comma_sep(),
            ) + spec_close_bracket()
        ]
    }
}

pub open spec fn bool_str(b: bool) -> Seq<char> {
    if b {
        spec_true_word()
    } else {
        spec_false_word()
    }
}

/// The item the optional flag contributes: none when the flag is off.
pub open spec fn optional_field(b: bool) -> Seq<Seq<char>> {
    if b {
        seq![spec_optional() + spec_eq_sep() + spec_true_word()]
    } else {
        Seq::empty()
    }
}

/// The item the default-features flag contributes: none when unset.
pub open spec fn default_features_field(o: Option<bool>) -> Seq<Seq<char>> {
    match o {
        Option::None => Seq::empty(),
        Option::Some(b) => seq![spec_default_features() + spec_eq_sep() + bool_str(b)],
    }
}

/// Every item a detailed declaration contributes, in field order.
pub open spec fn detail_fields(d: DepDetailView) -> Seq<Seq<char>> {
    opt_field(spec_version(), d.version) + opt_field(spec_path(), d.path) + opt_field(
        spec_git(),
        d.git,
    ) + opt_field(spec_rev(), d.rev) + features_field(d.features) + optional_field(d.optional)
        + default_features_field(d.default_features)
}

/// The whole flattened assignment: `name = { items }`.
pub open spec fn detail_inline(name: Seq<char>, d: DepDetailView) -> Seq<char> {
    name + spec_open_brace() + join_sep(detail_fields(d), spec_comma_sep()) + spec_close_brace()
}

proof fn lemma_esc_snoc(t: Seq<char>, c: char)
    ensures
        esc(t.push(c)) == esc(t) + esc_char(c),
    decreases t.len(),
{
    reveal_with_fuel(esc, 3);
    if t.len() == 0 {
        assert(t.push(c).drop_first() =~= Seq::<char>::empty());
        assert(esc(t.push(c)) =~= esc(t) + esc_char(c));
    } else {
        assert(t.push(c).drop_first() =~= t.drop_first().push(c));
        lemma_esc_snoc(t.drop_first(), c);
        assert(esc(t.push(c)) =~= esc(t) + esc_char(c));
    }
}

pub proof fn lemma_join_snoc(parts: Seq<Seq<char>>, sep: Seq<char>, x: Seq<char>)
    ensures
        join_sep(parts.push(x), sep) == if parts.len() == 0 {
            x
        } else {
            join_sep(parts, sep) + sep + x
        },
    decreases parts.len(),
{
    reveal_with_fuel(join_sep, 3);
    if parts.len() == 0 {
        assert(parts.push(x)[0] == x);
        assert(join_sep(parts.push(x), sep) =~= x);
    } else if parts.len() == 1 {
        assert(parts.push(x).drop_first() =~= seq![x]);
        assert(join_sep(parts.push(x), sep) =~= join_sep(parts, sep) + sep + x);
    } else {
        assert(parts.push(x).drop_first() =~= parts.drop_first().push(x));
        lemma_join_snoc(parts.drop_first(), sep, x);
        assert(join_sep(parts.push(x), sep) =~= join_sep(parts, sep) + sep + x);
    }
}

/// Append `"…"` with `s`'s characters escaped.
fn push_quoted(out: &mut Vec<char>, s: &Vec<char>)
    ensures
        final(out)@ == old(out)@ + quoted(s@),
{
    out.push('"');
    let ghost mid = out@;
    let mut i: usize = 0;
    while i < s.len()
        invariant
            i <= s.len(),
            out@ == mid + esc(s@.take(i as int)),
        decreases s.len() - i,
    {
        let c = s[i];
        proof {
            lemma_esc_snoc(s@.take(i as int), s@[i as int]);
            assert(s@.take(i + 1 as int) =~= s@.take(i as int).push(s@[i as int]));
        }
        if c == '"' || c == '\\' {
            out.push('\\');
        }
        out.push(c);
        assert(out@ =~= mid + esc(s@.take(i + 1 as int)));
        i += 1;
    }
    assert(s@.take(s@.len() as int) =~= s@);
    out.push('"');
    assert(out@ =~= old(out)@ + quoted(s@));
}

/// Build one `label = "value"` item.
fn kv_item(label: Vec<char>, value: &Vec<char>) -> (r: Vec<char>)
    ensures
        r@ == kv_str(label@, value@),
{
    let mut out = label;
    let sep = tok_eq_sep();
    push_all(&mut out, &sep);
    push_quoted(&mut out, value);
    out
}

/// Append the item an optional string field contributes, if any.
fn push_opt_field(fields: &mut Vec<Vec<char>>, label: Vec<char>, o: &Option<Vec<char>>)
    ensures
        chars_list_view(final(fields)@) == chars_list_view(old(fields)@) + opt_field(
            label@,
            opt_chars_view(*o),
        ),
{
    match o {
        Option::None => {
            assert(chars_list_view(fields@) =~= chars_list_view(fields@) + opt_field(
                label@,
                opt_chars_view(*o),
            ));
        },
        Option::Some(v) => {
            fields.push(kv_item(label, v));
            assert(chars_list_view(fields@) =~= chars_list_view(old(fields)@) + opt_field(
                label@,
                opt_chars_view(*o),
            ));
        },
    }
}

/// Join the built items with `", "`.
fn join_fields(fields: &Vec<Vec<char>>) -> (r: Vec<char>)
    ensures
        r@ == join_sep(chars_list_view(fields@), spec_comma_sep()),
{
    let mut out: Vec<char> = Vec::new();
    let sep = tok_comma_sep();
    let mut i: usize = 0;
    while i < fields.len()
        invariant
            i <= fields.len(),
            sep@ == spec_comma_sep(),
            out@ == join_sep(chars_list_view(fields@.take(i as int)), spec_comma_sep()),
        decreases fields.len() - i,
    {
        if i > 0 {
            push_all(&mut out, &sep);
        }
        push_all(&mut out, &fields[i]);
        proof {
            lemma_join_snoc(
                chars_list_view(fields@.take(i as int)),
                spec_comma_sep(),
                fields@[i as int]@,
            );
            assert(chars_list_view(fields@.take(i + 1 as int)) =~= chars_list_view(
                fields@.take(i as int),
            ).push(fields@[i as int]@));
        }
        i += 1;
    }
    assert(fields@.take(fields@.len() as int) =~= fields@);
    out
}

/// Build the `features = ["a", "b"]` item.
fn features_item(fs: &Vec<Vec<char>>) -> (r: Vec<char>)
    requires
        fs@.len() > 0,
    ensures
        seq![r@] == features_field(chars_list_view(fs@)),
{
    let mut quoted_items: Vec<Vec<char>> = Vec::new();
    assert(chars_list_view(quoted_items@) =~= Seq::new(
        0nat,
        |j: int| quoted(chars_list_view(fs@)[j]),
    ));
    let mut i: usize = 0;
    while i < fs.len()
        invariant
            i <= fs.len(),
            chars_list_view(quoted_items@) == Seq::new(
                i as nat,
                |j: int| quoted(chars_list_view(fs@)[j]),
            ),
        decreases fs.len() - i,
    {
        let mut q: Vec<char> = Vec::new();
        push_quoted(&mut q, &fs[i]);
        assert(q@ =~= quoted(fs@[i as int]@));
        let ghost prev = quoted_items@;
        assert(chars_list_view(prev) == Seq::new(i as nat, |j: int| quoted(chars_list_view(fs@)[j])));
        assert(chars_list_view(prev).len() == prev.len());
        assert(prev.len() == i as nat);
        quoted_items.push(q);
        assert forall|j: int| 0 <= j < i + 1 implies chars_list_view(quoted_items@)[j] == quoted(
            chars_list_view(fs@)[j],
        ) by {
            if j < i {
                assert(chars_list_view(prev)[j] == quoted(chars_list_view(fs@)[j]));
                assert(quoted_items@[j] == prev[j]);
            } else {
                assert(quoted_items@[j] == q);
                assert(q@ == quoted(fs@[j]@));
            }
        }
        assert(chars_list_view(quoted_items@) =~= Seq::new(
            (i + 1) as nat,
            |j: int| quoted(chars_list_view(fs@)[j]),
        ));
        i += 1;
    }
    let mut out = tok_features();
    let ob = tok_open_bracket();
    push_all(&mut out, &ob);
    let joined = join_fields(&quoted_items);
    push_all(&mut out, &joined);
    let cb = tok_close_bracket();
    push_all(&mut out, &cb);
    assert(Seq::new(fs@.len(), |j: int| quoted(chars_list_view(fs@)[j])) =~= Seq::new(
        chars_list_view(fs@).len(),
        |j: int| quoted(chars_list_view(fs@)[j]),
    ));
    out
}

/// Serialize a detailed declaration as the single flattened assignment
/// `name = { … }` that replaces the dependency's original line.
pub fn dep_inline(name: &Vec<char>, detail: &DepDetail) -> (r: Vec<char>)
    ensures
        r@ == detail_inline(name@, detail@),
{
    let mut fields: Vec<Vec<char>> = Vec::new();
    push_opt_field(&mut fields, tok_version(), &detail.version);
    push_opt_field(&mut fields, tok_path(), &detail.path);
    push_opt_field(&mut fields, tok_git(), &detail.git);
    push_opt_field(&mut fields, tok_rev(), &detail.rev);
    let ghost pre_features = chars_list_view(fields@);
    if detail.features.len() > 0 {
        let item = features_item(&detail.features);
        fields.push(item);
        assert(chars_list_view(fields@) =~= pre_features + features_field(detail@.features));
    } else {
        assert(chars_list_view(fields@) =~= pre_features + features_field(detail@.features));
    }
    let ghost pre_optional = chars_list_view(fields@);
    if detail.optional {
        let mut item = tok_optional();
        let sep = tok_eq_sep();
        push_all(&mut item, &sep);
        let t = tok_true_word();
        push_all(&mut item, &t);
        fields.push(item);
        assert(chars_list_view(fields@) =~= pre_optional + optional_field(detail@.optional));
    } else {
        assert(chars_list_view(fields@) =~= pre_optional + optional_field(detail@.optional));
    }
    let ghost pre_df = chars_list_view(fields@);
    match &detail.default_features {
        Option::None => {
            assert(chars_list_view(fields@) =~= pre_df + default_features_field(
                detail@.default_features,
            ));
        },
        Option::Some(b) => {
            let mut item = tok_default_features();
            let sep = tok_eq_sep();
            push_all(&mut item, &sep);
            let w = if *b {
                tok_true_word()
            } else {
                tok_false_word()
            };
            push_all(&mut item, &w);
            fields.push(item);
            assert(chars_list_view(fields@) =~= pre_df + default_features_field(
                detail@.default_features,
            ));
        },
    }
    assert(chars_list_view(fields@) =~= detail_fields(detail@));
    let joined = join_fields(&fields);
    let mut out = crate::chars::copy_chars(name);
    let ob = tok_open_brace();
    push_all(&mut out, &ob);
    push_all(&mut out, &joined);
    let cb = tok_close_brace();
    push_all(&mut out, &cb);
    assert(out@ =~= detail_inline(name@, detail@));
    out
}

} // verus!
