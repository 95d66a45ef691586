//! The two export formats: a JSON array and a TOML document, each carrying
//! the full record list with its wire field names, and each proved to
//! decode back to the records it was built from.

use vstd::prelude::*;
use vstd::string::StringExecFns;
use crate::repo::{Repo, RepoModel, models_of};
use crate::text::{
    escape, dec_digits, push_escaped, push_decimal, read_quoted, read_decimal, is_dec,
    lemma_read_quoted_round_trip, lemma_read_decimal_round_trip,
};

verus! {

/// Whether `p` is a prefix of `s`.
pub open spec fn starts_with(s: Seq<char>, p: Seq<char>) -> bool {
    p.len() <= s.len() && s.take(p.len() as int) == p
}

// ------------------------------------------------------------------ JSON

/// One record as a JSON object, under its wire field names.
pub open spec fn json_of_repo(r: RepoModel) -> Seq<char> {
    "{\"name\":\""@ + escape(r.name) + "\",\"html_url\":\""@ + escape(r.url)
        + "\",\"description\":\""@ + escape(r.description) + "\",\"stargazers_count\":"@
        + dec_digits(r.star_count as nat) + "}"@
}

/// The comma-separated object list.
pub open spec fn json_items(rs: Seq<RepoModel>) -> Seq<char>
    decreases rs.len(),
{
    if rs.len() == 0 {
        Seq::empty()
    } else if rs.len() == 1 {
        json_of_repo(rs.first())
    } else {
        json_of_repo(rs.first()) + ","@ + json_items(rs.drop_first())
    }
}

/// The whole record list as a JSON array.
pub open spec fn json_of(rs: Seq<RepoModel>) -> Seq<char> {
    "["@ + json_items(rs) + "]"@
}

/// Decode one JSON object back into a record: the record and the count of
/// characters consumed.
pub open spec fn read_json_repo(s: Seq<char>) -> Option<(RepoModel, int)> {
    let l1 = "{\"name\":\""@;
    let l2 = ",\"html_url\":\""@;
    let l3 = ",\"description\":\""@;
    let l4 = ",\"stargazers_count\":"@;
    if !starts_with(s, l1) {
        None
    } else {
        match read_quoted(s.skip(l1.len() as int)) {
            None => None,
            Some((name, k1)) => {
                let s2 = s.skip(l1.len() + k1);
                if !starts_with(s2, l2) {
                    None
                } else {
                    match read_quoted(s2.skip(l2.len() as int)) {
                        None => None,
                        Some((url, k2)) => {
                            let s3 = s2.skip(l2.len() + k2);
                            if !starts_with(s3, l3) {
                                None
                            } else {
                                match read_quoted(s3.skip(l3.len() as int)) {
                                    None => None,
                                    Some((description, k3)) => {
                                        let s4 = s3.skip(l3.len() + k3);
                                        if !starts_with(s4, l4) {
                                            None
                                        } else {
                                            match read_decimal(s4.skip(l4.len() as int)) {
                                                None => None,
                                                Some((v, kd)) => {
                                                    let s5 = s4.skip(l4.len() + kd);
                                                    if 0 <= v <= u64::MAX && s5.len() >= 1
                                                        && s5.first() == '}' {
                                                        Some(
                                                            (
                                                                RepoModel {
                                                                    name,
                                                                    url,
                                                                    description,
                                                                    star_count: v as u64,
                                                                },
                                                                s.len() - s5.len() + 1,
                                                            ),
                                                        )
                                                    } else {
                                                        None
                                                    }
                                                },
                                            }
                                        }
                                    },
                                }
                            }
                        },
                    }
                }
            },
        }
    }
}

/// Decode the comma-separated object list: the records and the count of
/// characters consumed.
pub open spec fn read_json_items(s: Seq<char>) -> Option<(Seq<RepoModel>, int)>
    decreases s.len(),
{
    match read_json_repo(s) {
        None => None,
        Some((r, k)) => {
            if 0 < k && k < s.len() && s[k] == ',' {
                match read_json_items(s.skip(k + 1)) {
                    None => None,
                    Some((rs, k2)) => Some((seq![r] + rs, k + 1 + k2)),
                }
            } else {
                Some((seq![r], k))
            }
        },
    }
}

/// Decode a whole JSON export back into its record list.
pub open spec fn read_json(s: Seq<char>) -> Option<Seq<RepoModel>> {
    if s == "[]"@ {
        Some(Seq::empty())
    } else if starts_with(s, "["@) {
        match read_json_items(s.skip(1)) {
            None => None,
            Some((rs, k)) => {
                if 1 + k + 1 == s.len() && s[1 + k] == ']' {
                    Some(rs)
                } else {
                    None
                }
            },
        }
    } else {
        None
    }
}

// ------------------------------------------------------------------ TOML

/// One record as a TOML table in the `repo` table array, under its wire
/// field names.
pub open spec fn toml_of_repo(r: RepoModel) -> Seq<char> {
    "[[repo]]\nname = \""@ + escape(r.name) + "\"\nhtml_url = \""@ + escape(r.url)
        + "\"\ndescription = \""@ + escape(r.description) + "\"\nstargazers_count = "@
        + dec_digits(r.star_count as nat) + "\n"@
}

/// The whole record list as a TOML document: one table per record.
pub open spec fn toml_of(rs: Seq<RepoModel>) -> Seq<char>
    decreases rs.len(),
{
    if rs.len() == 0 {
        Seq::empty()
    } else {
        toml_of_repo(rs.first()) + toml_of(rs.drop_first())
    }
}

/// Decode one TOML table back into a record: the record and the count of
/// characters consumed.
pub open spec fn read_toml_repo(s: Seq<char>) -> Option<(RepoModel, int)> {
    let l1 = "[[repo]]\nname = \""@;
    let l2 = "\nhtml_url = \""@;
    let l3 = "\ndescription = \""@;
    let l4 = "\nstargazers_count = "@;
    if !starts_with(s, l1) {
        None
    } else {
        match read_quoted(s.skip(l1.len() as int)) {
            None => None,
            Some((name, k1)) => {
                let s2 = s.skip(l1.len() + k1);
                if !starts_with(s2, l2) {
                    None
                } else {
                    match read_quoted(s2.skip(l2.len() as int)) {
                        None => None,
                        Some((url, k2)) => {
                            let s3 = s2.skip(l2.len() + k2);
                            if !starts_with(s3, l3) {
                                None
                            } else {
                                match read_quoted(s3.skip(l3.len() as int)) {
                                    None => None,
                                    Some((description, k3)) => {
                                        let s4 = s3.skip(l3.len() + k3);
                                        if !starts_with(s4, l4) {
                                            None
                                        } else {
                                            match read_decimal(s4.skip(l4.len() as int)) {
                                                None => None,
                                                Some((v, kd)) => {
                                                    let s5 = s4.skip(l4.len() + kd);
                                                    if 0 <= v <= u64::MAX && s5.len() >= 1
                                                        && s5.first() == '\n' {
                                                        Some(
                                                            (
                                                                RepoModel {
                                                                    name,
                                                                    url,
                                                                    description,
                                                                    star_count: v as u64,
                                                                },
                                                                s.len() - s5.len() + 1,
                                                            ),
                                                        )
                                                    } else {
                                                        None
                                                    }
                                                },
                                            }
                                        }
                                    },
                                }
                            }
                        },
                    }
                }
            },
        }
    }
}

/// Decode a whole TOML export back into its record list.
pub open spec fn read_toml(s: Seq<char>) -> Option<Seq<RepoModel>>
    decreases s.len(),
{
    if s.len() == 0 {
        Some(Seq::empty())
    } else {
        match read_toml_repo(s) {
            None => None,
            Some((r, k)) => {
                if 0 < k <= s.len() {
                    match read_toml(s.skip(k)) {
                        None => None,
                        Some(rs) => Some(seq![r] + rs),
                    }
                } else {
                    None
                }
            },
        }
    }
}

// ------------------------------------------------------- exec encoders

fn push_repo_json(out: &mut String, r: &Repo)
    ensures
        final (out)@ == old(out)@ + json_of_repo(r@),
{
    out.append("{\"name\":\"");
    push_escaped(out, r.name.as_str());
    out.append("\",\"html_url\":\"");
    push_escaped(out, r.url.as_str());
    out.append("\",\"description\":\"");
    push_escaped(out, r.description.as_str());
    out.append("\",\"stargazers_count\":");
    push_decimal(out, r.star_count);
    out.append("}");
    proof {
        assert(final (out)@ =~= old(out)@ + json_of_repo(r@));
    }
}

proof fn lemma_json_items_snoc(rs: Seq<RepoModel>, x: RepoModel)
    ensures
        rs.len() == 0 ==> json_items(rs.push(x)) == json_of_repo(x),
        rs.len() > 0 ==> json_items(rs.push(x)) == json_items(rs) + ","@ + json_of_repo(x),
    decreases rs.len(),
{
    let t = rs.push(x);
    if rs.len() == 0 {
        assert(t.first() == x);
        assert(json_items(t) == json_of_repo(x));
    } else {
        lemma_json_items_snoc(rs.drop_first(), x);
        assert(t.drop_first() =~= rs.drop_first().push(x));
        assert(t.first() == rs.first());
        if rs.len() == 1 {
            assert(json_items(t) =~= json_items(rs) + ","@ + json_of_repo(x));
        } else {
            assert(json_items(t) =~= json_items(rs) + ","@ + json_of_repo(x));
        }
    }
}

/// Render the record list as the JSON export text.
pub fn to_json(repos: &Vec<Repo>) -> (r: String)
    ensures
        r@ == json_of(models_of(repos@)),
{
    let ghost m = models_of(repos@);
    let mut out = ("[").to_owned();
    let mut i: usize = 0;
    proof {
        assert(m.take(0) =~= Seq::<RepoModel>::empty());
        assert(out@ =~= "["@ + json_items(m.take(0)));
    }
    while i < repos.len()
        invariant
            i <= repos@.len(),
            m == models_of(repos@),
            m.len() == repos@.len(),
            out@ == "["@ + json_items(m.take(i as int)),
        decreases repos@.len() - i,
    {
        if i > 0 {
            out.append(",");
        }
        push_repo_json(&mut out, &repos[i]);
        proof {
            lemma_json_items_snoc(m.take(i as int), m[i as int]);
            assert(m.take(i + 1) =~= m.take(i as int).push(m[i as int]));
            assert(repos@[i as int]@ == m[i as int]);
            assert(out@ =~= "["@ + json_items(m.take(i + 1)));
        }
        i = i + 1;
    }
    out.append("]");
    proof {
        assert(m.take(m.len() as int) =~= m);
        assert(out@ =~= json_of(m));
    }
    out
}

fn push_repo_toml(out: &mut String, r: &Repo)
    ensures
        final (out)@ == old(out)@ + toml_of_repo(r@),
{
    out.append("[[repo]]\nname = \"");
    push_escaped(out, r.name.as_str());
    out.append("\"\nhtml_url = \"");
    push_escaped(out, r.url.as_str());
    out.append("\"\ndescription = \"");
    push_escaped(out, r.description.as_str());
    out.append("\"\nstargazers_count = ");
    push_decimal(out, r.star_count);
    out.append("\n");
    proof {
        assert(final (out)@ =~= old(out)@ + toml_of_repo(r@));
    }
}

proof fn lemma_toml_of_snoc(rs: Seq<RepoModel>, x: RepoModel)
    ensures
        toml_of(rs.push(x)) == toml_of(rs) + toml_of_repo(x),
    decreases rs.len(),
{
    let t = rs.push(x);
    if rs.len() == 0 {
        assert(t.first() == x);
        assert(t.drop_first() =~= Seq::<RepoModel>::empty());
        assert(toml_of(Seq::<RepoModel>::empty()) == Seq::<char>::empty());
        assert(toml_of(t) =~= toml_of(rs) + toml_of_repo(x));
    } else {
        lemma_toml_of_snoc(rs.drop_first(), x);
        assert(t.drop_first() =~= rs.drop_first().push(x));
        assert(t.first() == rs.first());
        assert(toml_of(t) == toml_of_repo(t.first()) + toml_of(t.drop_first()));
        assert(toml_of(rs) == toml_of_repo(rs.first()) + toml_of(rs.drop_first()));
        assert(toml_of(t) =~= toml_of(rs) + toml_of_repo(x));
    }
}

/// Render the record list as the TOML export text.
pub fn to_toml(repos: &Vec<Repo>) -> (r: String)
    ensures
        r@ == toml_of(models_of(repos@)),
{
    let ghost m = models_of(repos@);
    let mut out = String::new();
    let mut i: usize = 0;
    proof {
        assert(m.take(0) =~= Seq::<RepoModel>::empty());
        assert(out@ =~= toml_of(m.take(0)));
    }
    while i < repos.len()
        invariant
            i <= repos@.len(),
            m == models_of(repos@),
            m.len() == repos@.len(),
            out@ == toml_of(m.take(i as int)),
        decreases repos@.len() - i,
    {
        push_repo_toml(&mut out, &repos[i]);
        proof {
            lemma_toml_of_snoc(m.take(i as int), m[i as int]);
            assert(m.take(i + 1) =~= m.take(i as int).push(m[i as int]));
            assert(repos@[i as int]@ == m[i as int]);
            assert(out@ =~= toml_of(m.take(i + 1)));
        }
        i = i + 1;
    }
    proof {
        assert(m.take(m.len() as int) =~= m);
    }
    out
}

// ------------------------------------------------------- round trips

#[verifier::rlimit(100)]
proof fn lemma_read_json_repo_round_trip(r: RepoModel, rest: Seq<char>)
    ensures
        read_json_repo(json_of_repo(r) + rest) matches Some((m, k)) && m == r && k == json_of_repo(
            r,
        ).len(),
{
    reveal_strlit("{\"name\":\"");
    reveal_strlit("\",\"html_url\":\"");
    reveal_strlit("\",\"description\":\"");
    reveal_strlit("\",\"stargazers_count\":");
    reveal_strlit(",\"html_url\":\"");
    reveal_strlit(",\"description\":\"");
    reveal_strlit(",\"stargazers_count\":");
    reveal_strlit("}");
    let l1 = "{\"name\":\""@;
    let l2 = ",\"html_url\":\""@;
    let l3 = ",\"description\":\""@;
    let l4 = ",\"stargazers_count\":"@;
    let d = dec_digits(r.star_count as nat);
    let input = json_of_repo(r) + rest;
    let u5 = seq!['}'] + rest;
    let u4 = l4 + d + u5;
    let u3 = l3 + escape(r.description) + seq!['"'] + u4;
    let u2 = l2 + escape(r.url) + seq!['"'] + u3;
    let u1 = escape(r.name) + seq!['"'] + u2;
    assert("\",\"html_url\":\""@ =~= seq!['"'] + l2);
    assert("\",\"description\":\""@ =~= seq!['"'] + l3);
    assert("\",\"stargazers_count\":"@ =~= seq!['"'] + l4);
    assert("}"@ =~= seq!['}']);
    assert(input =~= l1 + u1);
    assert(starts_with(input, l1)) by {
        assert(input.take(l1.len() as int) =~= l1);
    }
    assert(input.skip(l1.len() as int) =~= u1);
    lemma_read_quoted_round_trip(r.name, u2);
    let k1: int = escape(r.name).len() as int + 1;
    let s2 = input.skip(l1.len() + k1);
    assert(s2 =~= u2);
    assert(starts_with(s2, l2)) by {
        assert(s2.take(l2.len() as int) =~= l2);
    }
    assert(s2.skip(l2.len() as int) =~= escape(r.url) + seq!['"'] + u3);
    lemma_read_quoted_round_trip(r.url, u3);
    let k2: int = escape(r.url).len() as int + 1;
    let s3 = s2.skip(l2.len() + k2);
    assert(s3 =~= u3);
    assert(starts_with(s3, l3)) by {
        assert(s3.take(l3.len() as int) =~= l3);
    }
    assert(s3.skip(l3.len() as int) =~= escape(r.description) + seq!['"'] + u4);
    lemma_read_quoted_round_trip(r.description, u4);
    let k3: int = escape(r.description).len() as int + 1;
    let s4 = s3.skip(l3.len() + k3);
    assert(s4 =~= u4);
    assert(starts_with(s4, l4)) by {
        assert(s4.take(l4.len() as int) =~= l4);
    }
    assert(s4.skip(l4.len() as int) =~= d + u5);
    assert(!is_dec('}'));
    lemma_read_decimal_round_trip(r.star_count as nat, u5);
    let s5 = s4.skip(l4.len() + d.len() as int);
    assert(s5 =~= u5);
    assert(s5.first() == '}');
    assert(read_json_repo(input) matches Some((m, k)) && m == r && k == json_of_repo(r).len()) by {
        assert(r == (RepoModel {
            name: r.name,
            url: r.url,
            description: r.description,
            star_count: r.star_count,
        }));
        assert(input.len() == json_of_repo(r).len() + rest.len());
        assert(u5.len() == 1 + rest.len());
    }
}

proof fn lemma_read_json_items_round_trip(rs: Seq<RepoModel>, rest: Seq<char>)
    requires
        rs.len() > 0,
        rest.len() > 0,
        rest.first() != ',',
    ensures
        read_json_items(json_items(rs) + rest) matches Some((ms, k)) && ms == rs && k == json_items(
            rs,
        ).len(),
    decreases rs.len(),
{
    reveal_strlit("{\"name\":\"");
    reveal_strlit(",");
    let input = json_items(rs) + rest;
    let r0 = rs.first();
    if rs.len() == 1 {
        assert(json_items(rs) == json_of_repo(r0));
        lemma_read_json_repo_round_trip(r0, rest);
        let k0 = json_of_repo(r0).len() as int;
        assert(k0 >= "{\"name\":\""@.len());
        assert(input[k0] == rest.first());
        assert(read_json_items(input) matches Some((ms, k)) && ms =~= rs && k == json_items(
            rs,
        ).len());
    } else {
        let tail = rs.drop_first();
        let items2 = json_items(tail);
        assert(json_items(rs) == json_of_repo(r0) + ","@ + items2);
        let rest0 = ","@ + items2 + rest;
        assert(input =~= json_of_repo(r0) + rest0);
        lemma_read_json_repo_round_trip(r0, rest0);
        let k0 = json_of_repo(r0).len() as int;
        assert(k0 >= "{\"name\":\""@.len());
        assert(","@ =~= seq![',']);
        assert(input[k0] == ',');
        assert(k0 < input.len());
        assert(input.skip(k0 + 1) =~= items2 + rest);
        lemma_read_json_items_round_trip(tail, rest);
        assert(read_json_items(input) matches Some((ms, k)) && ms =~= rs && k == json_items(
            rs,
        ).len());
    }
}

#[verifier::rlimit(100)]
proof fn lemma_read_toml_repo_round_trip(r: RepoModel, rest: Seq<char>)
    ensures
        read_toml_repo(toml_of_repo(r) + rest) matches Some((m, k)) && m == r && k == toml_of_repo(
            r,
        ).len(),
{
    reveal_strlit("[[repo]]\nname = \"");
    reveal_strlit("\"\nhtml_url = \"");
    reveal_strlit("\"\ndescription = \"");
    reveal_strlit("\"\nstargazers_count = ");
    reveal_strlit("\nhtml_url = \"");
    reveal_strlit("\ndescription = \"");
    reveal_strlit("\nstargazers_count = ");
    reveal_strlit("\n");
    let l1 = "[[repo]]\nname = \""@;
    let l2 = "\nhtml_url = \""@;
    let l3 = "\ndescription = \""@;
    let l4 = "\nstargazers_count = "@;
    let d = dec_digits(r.star_count as nat);
    let input = toml_of_repo(r) + rest;
    let u5 = seq!['\n'] + rest;
    let u4 = l4 + d + u5;
    let u3 = l3 + escape(r.description) + seq!['"'] + u4;
    let u2 = l2 + escape(r.url) + seq!['"'] + u3;
    let u1 = escape(r.name) + seq!['"'] + u2;
    assert("\"\nhtml_url = \""@ =~= seq!['"'] + l2);
    assert("\"\ndescription = \""@ =~= seq!['"'] + l3);
    assert("\"\nstargazers_count = "@ =~= seq!['"'] + l4);
    assert("\n"@ =~= seq!['\n']);
    assert(input =~= l1 + u1);
    assert(starts_with(input, l1)) by {
        assert(input.take(l1.len() as int) =~= l1);
    }
    assert(input.skip(l1.len() as int) =~= u1);
    lemma_read_quoted_round_trip(r.name, u2);
    let k1: int = escape(r.name).len() as int + 1;
    let s2 = input.skip(l1.len() + k1);
    assert(s2 =~= u2);
    assert(starts_with(s2, l2)) by {
        assert(s2.take(l2.len() as int) =~= l2);
    }
    assert(s2.skip(l2.len() as int) =~= escape(r.url) + seq!['"'] + u3);
    lemma_read_quoted_round_trip(r.url, u3);
    let k2: int = escape(r.url).len() as int + 1;
    let s3 = s2.skip(l2.len() + k2);
    assert(s3 =~= u3);
    assert(starts_with(s3, l3)) by {
        assert(s3.take(l3.len() as int) =~= l3);
    }
    assert(s3.skip(l3.len() as int) =~= escape(r.description) + seq!['"'] + u4);
    lemma_read_quoted_round_trip(r.description, u4);
    let k3: int = escape(r.description).len() as int + 1;
    let s4 = s3.skip(l3.len() + k3);
    assert(s4 =~= u4);
    assert(starts_with(s4, l4)) by {
        assert(s4.take(l4.len() as int) =~= l4);
    }
    assert(s4.skip(l4.len() as int) =~= d + u5);
    assert(!is_dec('\n'));
    lemma_read_decimal_round_trip(r.star_count as nat, u5);
    let s5 = s4.skip(l4.len() + d.len() as int);
    assert(s5 =~= u5);
    assert(s5.first() == '\n');
    assert(read_toml_repo(input) matches Some((m, k)) && m == r && k == toml_of_repo(r).len()) by {
        assert(r == (RepoModel {
            name: r.name,
            url: r.url,
            description: r.description,
            star_count: r.star_count,
        }));
        assert(input.len() == toml_of_repo(r).len() + rest.len());
        assert(u5.len() == 1 + rest.len());
    }
}

proof fn lemma_read_toml_round_trip(rs: Seq<RepoModel>)
    ensures
        read_toml(toml_of(rs)) == Some(rs),
    decreases rs.len(),
{
    reveal_strlit("[[repo]]\nname = \"");
    if rs.len() == 0 {
        assert(toml_of(rs).len() == 0);
        assert(read_toml(toml_of(rs)) matches Some(ms) && ms =~= rs);
    } else {
        let r0 = rs.first();
        let tail = rs.drop_first();
        let s = toml_of(rs);
        assert(s == toml_of_repo(r0) + toml_of(tail));
        lemma_read_toml_repo_round_trip(r0, toml_of(tail));
        let k0 = toml_of_repo(r0).len() as int;
        assert(k0 >= "[[repo]]\nname = \""@.len());
        assert(s.len() > 0);
        assert(s.skip(k0) =~= toml_of(tail));
        lemma_read_toml_round_trip(tail);
        assert(read_toml(s) matches Some(ms) && ms =~= rs);
    }
}

/// Both export texts decode back to exactly the records they were built
/// from, field for field; the two formats therefore carry the same record
/// set, whatever order the display sort later puts the records in.
pub proof fn lemma_exports_round_trip(rs: Seq<RepoModel>)
    ensures
        read_json(json_of(rs)) == Some(rs),
        read_toml(toml_of(rs)) == Some(rs),
{
    reveal_strlit("[");
    reveal_strlit("]");
    reveal_strlit("[]");
    reveal_strlit("{\"name\":\"");
    let s = json_of(rs);
    if rs.len() == 0 {
        assert(json_items(rs).len() == 0);
        assert(s =~= "[]"@);
        assert(read_json(s) matches Some(ms) && ms =~= rs);
    } else {
        assert(json_items(rs).len() >= "{\"name\":\""@.len()) by {
            let r0 = rs.first();
            if rs.len() == 1 {
                assert(json_items(rs) == json_of_repo(r0));
            } else {
                assert(json_items(rs) == json_of_repo(r0) + ","@ + json_items(rs.drop_first()));
            }
        }
        assert(s.len() > 2);
        assert(!(s == "[]"@)) by {
            assert("[]"@.len() == 2);
        }
        assert(starts_with(s, "["@)) by {
            assert(s.take(1) =~= "["@);
        }
        assert(s.skip(1) =~= json_items(rs) + "]"@);
        assert("]"@.len() == 1);
        assert("]"@.first() == ']');
        lemma_read_json_items_round_trip(rs, "]"@);
        let k = json_items(rs).len() as int;
        assert(s[1 + k] == ']');
        assert(1 + k + 1 == s.len());
        assert(read_json(s) matches Some(ms) && ms == rs);
    }
    lemma_read_toml_round_trip(rs);
}

} // verus!
