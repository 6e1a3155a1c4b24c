//! Canonical names for configuration files, and the removal of directives
//! that clash with credentials managed elsewhere.

use vstd::prelude::*;
use crate::country_map::CountryCodeMap;
use crate::text::{
    chars_of, find_from, has_prefix, index_of, lemma_index_of, lemma_index_of_unique, lower_of, lowercase, push_all,
    replace_spaces, slice_chars, spaces_to_underscores, starts_with, string_of,
};

verus! {

pub open spec fn ovpn_suffix() -> Seq<char> {
    seq!['.', 'o', 'v', 'p', 'n']
}

/// Whether a file name's extension is `ovpn`: it ends in `.ovpn` after a
/// non-empty stem.
pub open spec fn has_ovpn_extension(name: Seq<char>) -> bool {
    name.len() > 5 && name.subrange(name.len() - 5, name.len() as int) == ovpn_suffix()
}

/// The part of `s` before the first `c`.
pub open spec fn before(s: Seq<char>, c: char) -> Seq<char> {
    s.subrange(0, index_of(s, c) as int)
}

/// The name with spaces as underscores and its extension cut off.
pub open spec fn name_stem(name: Seq<char>) -> Seq<char> {
    before(spaces_to_underscores(lower_of(name)), '.')
}

/// The first `-`-separated token of the stem.
pub open spec fn country_token(name: Seq<char>) -> Seq<char> {
    before(name_stem(name), '-')
}

/// `-` and the second token of the stem, or nothing where there is none.
pub open spec fn city_suffix(name: Seq<char>) -> Seq<char> {
    let stem = name_stem(name);
    let i = index_of(stem, '-');
    if i < stem.len() {
        seq!['-'] + before(stem.subrange(i as int + 1, stem.len() as int), '-')
    } else {
        Seq::empty()
    }
}

/// The name a configuration file is written under. For an `.ovpn` file:
/// `country-code[-city].ovpn` where the country is known, else the lower-cased
/// name, spaces becoming underscores either way. Any other file keeps its
/// lower-cased name.
pub open spec fn normalized_name(name: Seq<char>, map: Map<Seq<char>, Seq<char>>) -> Seq<char> {
    if has_ovpn_extension(name) {
        spaces_to_underscores(
            if map.contains_key(country_token(name)) {
                country_token(name) + seq!['-'] + map[country_token(name)] + city_suffix(name)
                    + ovpn_suffix()
            } else {
                lower_of(name)
            },
        )
    } else {
        lower_of(name)
    }
}

/// An `.ovpn` name whose country token the table does not hold is kept,
/// lower-cased and with spaces as underscores.
pub proof fn lemma_unknown_country_fallback(name: Seq<char>, map: Map<Seq<char>, Seq<char>>)
    requires
        has_ovpn_extension(name),
        !map.contains_key(country_token(name)),
    ensures
        normalized_name(name, map) == spaces_to_underscores(lower_of(name)),
{
}

/// Normalising a name that is already canonical (lower case, no spaces, and
/// not starting with a country name that the table holds, as in `fr-33.ovpn`)
/// gives it back unchanged.
pub proof fn lemma_canonical_name_is_fixed(name: Seq<char>, map: Map<Seq<char>, Seq<char>>)
    requires
        lower_of(name) == name,
        !name.contains(' '),
        !map.contains_key(country_token(name)),
    ensures
        normalized_name(name, map) == name,
{
    assert forall|i: int| 0 <= i < name.len() implies spaces_to_underscores(name)[i] == name[i] by {
        if name[i] == ' ' {
            assert(name.contains(' '));
        }
    }
    assert(spaces_to_underscores(name) =~= name);
}

/// Computes `normalized_name` for the file name of one archive entry.
pub fn normalize_filename(name: &str, map: &CountryCodeMap) -> (r: String)
    requires
        map.wf(),
    ensures
        r@ == normalized_name(name@, map@),
{
    let v = chars_of(name);
    let lower = lowercase(name);
    let lv = chars_of(lower.as_str());
    let mut is_ovpn = false;
    if v.len() > 5 {
        let tail = slice_chars(&v, v.len() - 5, v.len());
        let suffix: Vec<char> = vec!['.', 'o', 'v', 'p', 'n'];
        is_ovpn = has_prefix(&tail, &suffix);
        proof {
            assert(suffix@ =~= ovpn_suffix());
            assert(tail@.subrange(0, 5) =~= tail@);
        }
    }
    let candidate = if is_ovpn {
        let c = replace_spaces(&lv);
        let dot = find_from(&c, 0, '.');
        proof {
            assert(c@.subrange(0, c@.len() as int) =~= c@);
            lemma_index_of(c@, '.');
        }
        let stem = slice_chars(&c, 0, dot);
        let dash = find_from(&stem, 0, '-');
        proof {
            assert(stem@.subrange(0, stem@.len() as int) =~= stem@);
            lemma_index_of(stem@, '-');
        }
        let country = slice_chars(&stem, 0, dash);
        let mut city: Vec<char> = Vec::new();
        if dash < stem.len() {
            let end = find_from(&stem, dash + 1, '-');
            city.push('-');
            let part = slice_chars(&stem, dash + 1, end);
            push_all(&mut city, &part);
            proof {
                let rest = stem@.subrange(dash + 1, stem@.len() as int);
                assert(rest.subrange(0, end - dash - 1) =~= part@);
            }
        }
        assert(city@ =~= city_suffix(name@));
        let country_name = string_of(&country);
        let candidate = match map.get(&country_name) {
            Some(code) => {
                let mut out = country.clone();
                out.push('-');
                push_all(&mut out, &chars_of(code.as_str()));
                push_all(&mut out, &city);
                let suffix: Vec<char> = vec!['.', 'o', 'v', 'p', 'n'];
                push_all(&mut out, &suffix);
                assert(suffix@ =~= ovpn_suffix());
                assert(out@ =~= country@ + seq!['-'] + code@ + city@ + ovpn_suffix());
                out
            },
            None => lv,
        };
        replace_spaces(&candidate)
    } else {
        lv
    };
    string_of(&candidate)
}

pub open spec fn up_directive() -> Seq<char> {
    seq!['u', 'p', ' ']
}

pub open spec fn down_directive() -> Seq<char> {
    seq!['d', 'o', 'w', 'n', ' ']
}

pub open spec fn auth_directive() -> Seq<char> {
    seq!['a', 'u', 't', 'h', '-', 'u', 's', 'e', 'r', '-', 'p', 'a', 's', 's']
}

/// A line survives unless it starts a script hook or names a credential file.
pub open spec fn kept_line(line: Seq<char>) -> bool {
    !(starts_with(line, up_directive()) || starts_with(line, down_directive()) || starts_with(
        line,
        auth_directive(),
    ))
}

/// The `\n`-separated lines of `s`; text without a line break is one line.
pub open spec fn lines_of(s: Seq<char>) -> Seq<Seq<char>>
    decreases s.len(),
{
    if index_of(s, '\n') < s.len() {
        seq![before(s, '\n')] + lines_of(s.subrange(index_of(s, '\n') as int + 1, s.len() as int))
    } else {
        seq![s]
    }
}

pub open spec fn kept_lines(lines: Seq<Seq<char>>) -> Seq<Seq<char>> {
    lines.filter(|l: Seq<char>| kept_line(l))
}

/// The lines joined with `\n` between each two.
pub open spec fn join_lines(lines: Seq<Seq<char>>) -> Seq<char>
    decreases lines.len(),
{
    if lines.len() == 0 {
        Seq::empty()
    } else if lines.len() == 1 {
        lines[0]
    } else {
        join_lines(lines.drop_last()) + seq!['\n'] + lines.last()
    }
}

/// A configuration text without the lines that `kept_line` rejects.
pub open spec fn filtered_config(text: Seq<char>) -> Seq<char> {
    join_lines(kept_lines(lines_of(text)))
}

pub open spec fn no_break(line: Seq<char>) -> bool {
    forall|j: int| 0 <= j < line.len() ==> line[j] != '\n'
}

proof fn lemma_index_of_concat(a: Seq<char>, b: Seq<char>, c: char)
    ensures
        index_of(a, c) < a.len() ==> index_of(a + b, c) == index_of(a, c),
        index_of(a, c) == a.len() ==> index_of(a + b, c) == a.len() + index_of(b, c),
{
    lemma_index_of(a, c);
    lemma_index_of(b, c);
    let s = a + b;
    if index_of(a, c) < a.len() {
        let i = index_of(a, c) as int;
        assert forall|j: int| 0 <= j < i implies s[j] != c by {
            assert(s[j] == a[j]);
        }
        lemma_index_of_unique(s, c, i);
    } else {
        let i: int = a.len() + index_of(b, c) as int;
        assert forall|j: int| 0 <= j < i implies s[j] != c by {
            if j < a.len() {
                assert(s[j] == a[j]);
            } else {
                assert(s[j] == b[j - a.len()]);
            }
        }
        if i < s.len() {
            assert(s[i] == b[index_of(b, c) as int]);
        }
        lemma_index_of_unique(s, c, i);
    }
}

proof fn lemma_single_line(b: Seq<char>)
    requires
        no_break(b),
    ensures
        lines_of(b) == seq![b],
{
    lemma_index_of_unique(b, '\n', b.len() as int);
}

proof fn lemma_lines_of_append(a: Seq<char>, b: Seq<char>)
    requires
        no_break(b),
    ensures
        lines_of(a + seq!['\n'] + b) == lines_of(a).push(b),
    decreases a.len(),
{
    let s = a + seq!['\n'] + b;
    let nb = seq!['\n'] + b;
    assert(s =~= a + nb);
    lemma_index_of(a, '\n');
    lemma_index_of_concat(a, nb, '\n');
    lemma_single_line(b);
    let i = index_of(a, '\n') as int;
    if i < a.len() {
        let a2 = a.subrange(i + 1, a.len() as int);
        assert(s.subrange(i + 1, s.len() as int) =~= a2 + seq!['\n'] + b);
        assert(before(s, '\n') =~= before(a, '\n'));
        lemma_lines_of_append(a2, b);
        assert(lines_of(s) =~= lines_of(a).push(b));
    } else {
        assert(nb[0] == '\n');
        assert(index_of(nb, '\n') == 0);
        assert(before(s, '\n') =~= a);
        assert(s.subrange(a.len() as int + 1, s.len() as int) =~= b);
        lemma_single_line(a);
        assert(lines_of(s) =~= lines_of(a).push(b));
    }
}

proof fn lemma_lines_of_join(ls: Seq<Seq<char>>)
    requires
        ls.len() > 0,
        forall|k: int| 0 <= k < ls.len() ==> no_break(#[trigger] ls[k]),
    ensures
        lines_of(join_lines(ls)) == ls,
    decreases ls.len(),
{
    if ls.len() == 1 {
        lemma_single_line(ls[0]);
        assert(ls =~= seq![ls[0]]);
    } else {
        let init = ls.drop_last();
        assert forall|k: int| 0 <= k < init.len() implies no_break(#[trigger] init[k]) by {
            assert(init[k] == ls[k]);
        }
        lemma_lines_of_join(init);
        assert(no_break(ls[ls.len() - 1]));
        lemma_lines_of_append(join_lines(init), ls.last());
        assert(init.push(ls.last()) =~= ls);
    }
}

proof fn lemma_lines_have_no_break(s: Seq<char>)
    ensures
        forall|k: int| 0 <= k < lines_of(s).len() ==> no_break(#[trigger] lines_of(s)[k]),
    decreases s.len(),
{
    lemma_index_of(s, '\n');
    let i = index_of(s, '\n') as int;
    if i < s.len() {
        let rest = s.subrange(i + 1, s.len() as int);
        lemma_lines_have_no_break(rest);
        assert forall|k: int| 0 <= k < lines_of(s).len() implies no_break(
            #[trigger] lines_of(s)[k],
        ) by {
            if k > 0 {
                assert(lines_of(s)[k] == lines_of(rest)[k - 1]);
            }
        }
    }
}

proof fn lemma_kept_lines(ls: Seq<Seq<char>>)
    requires
        forall|k: int| 0 <= k < ls.len() ==> no_break(#[trigger] ls[k]),
    ensures
        forall|k: int|
            0 <= k < kept_lines(ls).len() ==> no_break(#[trigger] kept_lines(ls)[k]) && kept_line(
                kept_lines(ls)[k],
            ),
    decreases ls.len(),
{
    reveal(Seq::filter);
    if ls.len() > 0 {
        let init = ls.drop_last();
        assert forall|k: int| 0 <= k < init.len() implies no_break(#[trigger] init[k]) by {
            assert(init[k] == ls[k]);
        }
        lemma_kept_lines(init);
        let last = ls[ls.len() - 1];
        assert(no_break(last));
        let f0 = kept_lines(init);
        assert(init =~= ls.drop_last());
        if kept_line(last) {
            assert(kept_lines(ls) == f0.push(last));
        } else {
            assert(kept_lines(ls) == f0);
        }
        assert forall|k: int| 0 <= k < kept_lines(ls).len() implies no_break(
            #[trigger] kept_lines(ls)[k],
        ) && kept_line(kept_lines(ls)[k]) by {
            if k < f0.len() {
                assert(kept_lines(ls)[k] == f0[k]);
            }
        }
    }
}

/// No line of a filtered configuration starts with `up `, `down ` or
/// `auth-user-pass`: splitting the output at line breaks finds only kept lines.
pub proof fn lemma_filtered_lines_are_kept(text: Seq<char>)
    ensures
        forall|k: int|
            0 <= k < lines_of(filtered_config(text)).len() ==> kept_line(
                #[trigger] lines_of(filtered_config(text))[k],
            ),
{
    let ks = kept_lines(lines_of(text));
    lemma_lines_have_no_break(text);
    lemma_kept_lines(lines_of(text));
    if ks.len() == 0 {
        lemma_single_line(Seq::empty());
        assert(kept_line(Seq::<char>::empty()));
    } else {
        lemma_lines_of_join(ks);
    }
}

/// Removes every line that starts with `up `, `down ` or `auth-user-pass`.
pub fn filter_config_lines(text: &str) -> (r: String)
    ensures
        r@ == filtered_config(text@),
{
    let v = chars_of(text);
    let up: Vec<char> = vec!['u', 'p', ' '];
    let down: Vec<char> = vec!['d', 'o', 'w', 'n', ' '];
    let auth: Vec<char> = vec![
        'a', 'u', 't', 'h', '-', 'u', 's', 'e', 'r', '-', 'p', 'a', 's', 's',
    ];
    assert(up@ =~= up_directive());
    assert(down@ =~= down_directive());
    assert(auth@ =~= auth_directive());
    let mut out: Vec<char> = Vec::new();
    let mut any_kept = false;
    let mut start: usize = 0;
    let mut finished = false;
    let ghost mut done: Seq<Seq<char>> = Seq::empty();
    assert(v@.subrange(0, v.len() as int) =~= v@);
    assert(done + lines_of(v@) =~= lines_of(v@));
    while !finished
        invariant
            v@ == text@,
            up@ == up_directive(),
            down@ == down_directive(),
            auth@ == auth_directive(),
            start <= v.len(),
            !finished ==> done + lines_of(v@.subrange(start as int, v.len() as int)) == lines_of(
                v@,
            ),
            finished ==> done == lines_of(v@),
            out@ == join_lines(kept_lines(done)),
            any_kept == (kept_lines(done).len() > 0),
        decreases (if finished { 0 } else { v.len() + 1 - start }),
    {
        let ghost rest = v@.subrange(start as int, v.len() as int);
        let end = find_from(&v, start, '\n');
        let line = slice_chars(&v, start, end);
        proof {
            lemma_index_of(rest, '\n');
            assert(rest.subrange(0, end - start) =~= line@);
        }
        let keep = !(has_prefix(&line, &up) || has_prefix(&line, &down) || has_prefix(
            &line,
            &auth,
        ));
        proof {
            reveal(Seq::filter);
            assert(done.push(line@).drop_last() =~= done);
        }
        if keep {
            if any_kept {
                out.push('\n');
            }
            push_all(&mut out, &line);
            any_kept = true;
            proof {
                let ks = kept_lines(done.push(line@));
                assert(ks == kept_lines(done).push(line@));
                assert(ks.drop_last() =~= kept_lines(done));
                if kept_lines(done).len() == 0 {
                    assert(out@ =~= line@);
                } else {
                    assert(out@ =~= join_lines(kept_lines(done)) + seq!['\n'] + line@);
                }
            }
        }
        proof {
            if end < v.len() {
                let next = v@.subrange(end as int + 1, v.len() as int);
                assert(rest.subrange(end - start + 1, rest.len() as int) =~= next);
                assert(lines_of(rest) == seq![line@] + lines_of(next));
                assert(done + lines_of(rest) =~= done.push(line@) + lines_of(next));
            } else {
                assert(lines_of(rest) == seq![line@]);
                assert(done + lines_of(rest) =~= done.push(line@));
            }
            done = done.push(line@);
        }
        if end < v.len() {
            start = end + 1;
        } else {
            finished = true;
        }
    }
    string_of(&out)
}

} // verus!
