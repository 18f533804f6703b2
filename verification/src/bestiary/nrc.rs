//! Assembly of a catalog from the NRC data bundle. Reading the database and
//! listing the icon directory happen outside the library; what they yield
//! arrives here as plain rows and file names.
use vstd::prelude::*;
use vstd::string::StringExecFns;

use crate::bestiary::catalog::PetCatalog;
use crate::bestiary::model::{
    copy_text_option, species_views, Evolution, Move, MoveEffect, PetSpecies, PetSpeciesView, Stats,
};
use crate::order::{lemma_lex_antisym, lemma_lex_refl, lex_le, sort_texts, sorted_texts};
use crate::text::{
    ascii_lower, char_ascii_lower, char_is_digit, char_is_white_space, chars_of, ends_with,
    i64_text, is_digit, is_white_space, join_path, joined, push_char, signed_decimal, string_of,
    text_ends_with,
};
pub use crate::text::text_option_view;

verus! {

/// The ASCII digits of a text, in order.
pub open spec fn digits_of(s: Seq<char>) -> Seq<char> {
    s.filter(|c: char| is_digit(c))
}

/// A digit string left-padded with zeros to at least three characters.
pub open spec fn zero_pad3(d: Seq<char>) -> Seq<char> {
    if d.len() >= 3 {
        d
    } else {
        Seq::new((3 - d.len()) as nat, |i: int| '0') + d
    }
}

/// The icon prefix of a spirit number: `NO` and its digits padded to three;
/// none when it has no digit.
pub open spec fn spirit_prefix(spirit_no: Seq<char>) -> Option<Seq<char>> {
    let d = digits_of(spirit_no);
    if d.len() == 0 {
        None
    } else {
        Some("NO"@ + zero_pad3(d))
    }
}

/// The icon prefix of a spirit number, such as `NO439` for `No.439`.
pub fn normalize_spirit_no(spirit_no: &str) -> (r: Option<String>)
    ensures
        match spirit_prefix(spirit_no@) {
            Some(p) => r matches Some(s) && s@ == p,
            None => r is None,
        },
{
    let chars = chars_of(spirit_no);
    let mut digits: Vec<char> = Vec::new();
    assert(spirit_no@.take(0).filter(|c: char| is_digit(c)) =~= Seq::<char>::empty()) by {
        reveal_with_fuel(Seq::<_>::filter, 1);
    }
    for i in 0..chars.len()
        invariant
            chars@ == spirit_no@,
            digits@ == spirit_no@.take(i as int).filter(|c: char| is_digit(c)),
    {
        proof {
            assert(spirit_no@.take(i + 1).drop_last() =~= spirit_no@.take(i as int));
            reveal_with_fuel(Seq::<_>::filter, 1);
        }
        if char_is_digit(chars[i]) {
            digits.push(chars[i]);
        }
    }
    assert(spirit_no@.take(chars@.len() as int) =~= spirit_no@);
    if digits.len() == 0 {
        return None;
    }
    let mut s = String::from_str("NO");
    let mut k = digits.len();
    let ghost pad = zero_pad3(digits@);
    while k < 3
        invariant
            digits@.len() <= k <= 3 || (digits@.len() >= 3 && k == digits@.len()),
            s@ == "NO"@ + Seq::new((k - digits@.len()) as nat, |i: int| '0'),
        decreases 3 - k,
    {
        push_char(&mut s, '0');
        assert(Seq::new((k + 1 - digits@.len()) as nat, |i: int| '0') =~= Seq::new(
            (k - digits@.len()) as nat,
            |i: int| '0',
        ).push('0'));
        k = k + 1;
    }
    let tail = string_of(digits.as_slice());
    s.append(tail.as_str());
    proof {
        if digits@.len() >= 3 {
            assert(Seq::new((k - digits@.len()) as nat, |i: int| '0') =~= Seq::<char>::empty());
        }
        assert(s@ =~= "NO"@ + zero_pad3(digits@));
    }
    Some(s)
}

/// A name made into an id: whitespace dropped and ASCII letters lower-cased.
pub open spec fn slug(name: Seq<char>) -> Seq<char> {
    name.filter(|c: char| !is_white_space(c)).map_values(|c: char| ascii_lower(c))
}

/// The species id for a database row: `pokemon-<id>-<slug of name>`.
pub open spec fn species_id_text(pokemon_id: i64, name: Seq<char>) -> Seq<char> {
    "pokemon-"@ + signed_decimal(pokemon_id as int) + "-"@ + slug(name)
}

/// The species id for the database row `pokemon_id` named `name`.
pub fn species_id_for(pokemon_id: i64, name: &str) -> (r: String)
    ensures
        r@ == species_id_text(pokemon_id, name@),
{
    let chars = chars_of(name);
    let mut slug_chars: Vec<char> = Vec::new();
    assert(name@.take(0).filter(|c: char| !is_white_space(c)) =~= Seq::<char>::empty()) by {
        reveal_with_fuel(Seq::<_>::filter, 1);
    }
    for i in 0..chars.len()
        invariant
            chars@ == name@,
            slug_chars@ == name@.take(i as int).filter(|c: char| !is_white_space(c)).map_values(
                |c: char| ascii_lower(c),
            ),
    {
        proof {
            assert(name@.take(i + 1).drop_last() =~= name@.take(i as int));
            reveal_with_fuel(Seq::<_>::filter, 1);
        }
        let ch = chars[i];
        if !char_is_white_space(ch) {
            let ghost before = slug_chars@;
            slug_chars.push(char_ascii_lower(ch));
            assert(slug_chars@ =~= name@.take(i + 1).filter(|c: char| !is_white_space(c)).map_values(
                |c: char| ascii_lower(c),
            ));
        }
    }
    assert(name@.take(chars@.len() as int) =~= name@);
    let mut r = String::from_str("pokemon-");
    let id_text = i64_text(pokemon_id);
    r.append(id_text.as_str());
    r.append("-");
    let slug_text = string_of(slug_chars.as_slice());
    r.append(slug_text.as_str());
    r
}

/// The index of the last `.` of a file name.
pub open spec fn last_dot(name: Seq<char>) -> Option<int>
    decreases name.len(),
{
    if name.len() == 0 {
        None
    } else if name.last() == '.' {
        Some(name.len() - 1)
    } else {
        last_dot(name.drop_last())
    }
}

/// The index of the first `_` of a file name at or after `i`.
pub open spec fn underscore_from(name: Seq<char>, i: int) -> Option<int>
    decreases name.len() - i,
{
    if i < 0 || i >= name.len() {
        None
    } else if name[i] == '_' {
        Some(i)
    } else {
        underscore_from(name, i + 1)
    }
}

/// A file name has the extension `png`: the text after its last `.`, when
/// that dot does not start the name.
pub open spec fn png_extension(name: Seq<char>) -> bool {
    match last_dot(name) {
        Some(k) => k > 0 && name.subrange(k + 1, name.len() as int) == "png"@,
        None => false,
    }
}

/// The icon prefix of a file name: the text before its first `_`, for
/// `png` files that have one.
pub open spec fn icon_file_prefix(name: Seq<char>) -> Option<Seq<char>> {
    if png_extension(name) {
        match underscore_from(name, 0) {
            Some(k) => Some(name.take(k)),
            None => None,
        }
    } else {
        None
    }
}

proof fn lemma_last_dot(name: Seq<char>)
    ensures
        match last_dot(name) {
            Some(k) => 0 <= k < name.len() && name[k] == '.' && forall|j: int|
                k < j < name.len() ==> name[j] != '.',
            None => forall|j: int| 0 <= j < name.len() ==> name[j] != '.',
        },
    decreases name.len(),
{
    if name.len() > 0 && name.last() != '.' {
        lemma_last_dot(name.drop_last());
        assert forall|j: int| 0 <= j < name.len() - 1 implies name.drop_last()[j] == name[j] by {}
    }
}

proof fn lemma_underscore_from(name: Seq<char>, i: int)
    requires
        0 <= i <= name.len(),
    ensures
        match underscore_from(name, i) {
            Some(k) => i <= k < name.len() && name[k] == '_' && forall|j: int|
                i <= j < k ==> name[j] != '_',
            None => forall|j: int| i <= j < name.len() ==> name[j] != '_',
        },
    decreases name.len() - i,
{
    if i < name.len() && name[i] != '_' {
        lemma_underscore_from(name, i + 1);
    }
}

/// The first `n` characters as a string.
fn take_text(chars: &Vec<char>, n: usize) -> (r: String)
    requires
        n <= chars@.len(),
    ensures
        r@ == chars@.take(n as int),
{
    let mut r = String::new();
    for i in 0..n
        invariant
            n <= chars@.len(),
            r@ == chars@.take(i as int),
    {
        push_char(&mut r, chars[i]);
        assert(r@ =~= chars@.take(i + 1));
    }
    r
}

/// The icon prefix of a file name, if it names an icon.
fn file_icon_prefix(name: &str) -> (r: Option<String>)
    ensures
        match icon_file_prefix(name@) {
            Some(p) => r matches Some(s) && s@ == p,
            None => r is None,
        },
{
    let chars = chars_of(name);
    proof {
        lemma_last_dot(name@);
        lemma_underscore_from(name@, 0);
    }
    let mut k = chars.len();
    while k > 0 && chars[k - 1] != '.'
        invariant
            chars@ == name@,
            k <= chars@.len(),
            forall|j: int| k <= j < chars@.len() ==> chars@[j] != '.',
        decreases k,
    {
        k = k - 1;
    }
    if k <= 1 {
        return None;
    }
    assert(last_dot(name@) == Some(k - 1));
    let is_png = chars.len() - k == 3 && chars[k] == 'p' && chars[k + 1] == 'n' && chars[k + 2]
        == 'g';
    proof {
        reveal_strlit("png");
        let ext = name@.subrange(k as int, name@.len() as int);
        if is_png {
            assert(ext =~= "png"@);
        } else if ext.len() == 3 {
            assert(ext[0] != 'p' || ext[1] != 'n' || ext[2] != 'g');
        }
    }
    if !is_png {
        return None;
    }
    let mut u: usize = 0;
    while u < chars.len() && chars[u] != '_'
        invariant
            chars@ == name@,
            u <= chars@.len(),
            forall|j: int| 0 <= j < u ==> chars@[j] != '_',
        decreases chars.len() - u,
    {
        u = u + 1;
    }
    if u == chars.len() {
        return None;
    }
    assert(underscore_from(name@, 0) == Some(u as int));
    Some(take_text(&chars, u))
}

/// The icons of one prefix, their file names in order.
#[derive(Debug, Clone, PartialEq, Eq)]
pub struct IconGroup {
    pub prefix: String,
    pub file_names: Vec<String>,
}

/// The icon files of the bundle grouped by prefix, under their directory.
#[derive(Debug, Clone, PartialEq, Eq)]
pub struct IconIndex {
    pub dir: String,
    pub groups: Vec<IconGroup>,
}

/// The file names of an icon directory listing that carry the prefix `p`.
pub open spec fn with_prefix(names: Seq<String>, p: Seq<char>) -> Seq<String> {
    names.filter(|n: String| icon_file_prefix(n@) == Some(p))
}

/// The index groups exactly the icons of `names`: one group per prefix that
/// some icon file has, each holding the file names with that prefix, so none
/// is empty.
pub open spec fn groups_icons(groups: Seq<IconGroup>, names: Seq<String>) -> bool {
    &&& forall|i: int| 0 <= i < groups.len() ==> (#[trigger] groups[i]).file_names@.len() > 0
    &&& forall|i: int, j: int|
        0 <= i < j < groups.len() ==> (#[trigger] groups[i]).prefix@ != (#[trigger] groups[j]).prefix@
    &&& forall|i: int|
        0 <= i < groups.len() ==> (#[trigger] groups[i]).file_names@.to_multiset() == with_prefix(
            names,
            groups[i].prefix@,
        ).to_multiset()
    &&& forall|k: int|
        0 <= k < names.len() && (#[trigger] icon_file_prefix(names[k]@)) is Some ==> exists|i: int|
            0 <= i < groups.len() && Some((#[trigger] groups[i]).prefix@) == icon_file_prefix(
                names[k]@,
            )
}

/// The index of the first group with prefix `p`, from `i` on.
pub open spec fn group_from(groups: Seq<IconGroup>, p: Seq<char>, i: int) -> Option<int>
    decreases groups.len() - i,
{
    if i < 0 || i >= groups.len() {
        None
    } else if groups[i].prefix@ == p {
        Some(i)
    } else {
        group_from(groups, p, i + 1)
    }
}

proof fn lemma_group_from(groups: Seq<IconGroup>, p: Seq<char>, i: int)
    requires
        0 <= i <= groups.len(),
    ensures
        match group_from(groups, p, i) {
            Some(j) => i <= j < groups.len() && groups[j].prefix@ == p && forall|k: int|
                i <= k < j ==> groups[k].prefix@ != p,
            None => forall|k: int| i <= k < groups.len() ==> groups[k].prefix@ != p,
        },
    decreases groups.len() - i,
{
    if i < groups.len() && groups[i].prefix@ != p {
        lemma_group_from(groups, p, i + 1);
    }
}

/// Where the group with prefix `p` is.
fn find_group(groups: &Vec<IconGroup>, p: &String) -> (r: Option<usize>)
    ensures
        match group_from(groups@, p@, 0) {
            Some(j) => r == Some(j as usize),
            None => r is None,
        },
        r matches Some(j) ==> j < groups@.len() && groups@[j as int].prefix@ == p@,
        r is None ==> forall|k: int| 0 <= k < groups@.len() ==> groups@[k].prefix@ != p@,
{
    proof {
        lemma_group_from(groups@, p@, 0);
    }
    for i in 0..groups.len()
        invariant
            group_from(groups@, p@, 0) == group_from(groups@, p@, i as int),
    {
        if groups[i].prefix == *p {
            return Some(i);
        }
    }
    None
}

/// Groups the icon files among `file_names`, the listing of `icons_dir`; with
/// no icon directory there are no icons.
pub fn build_icon_index(icons_dir: Option<&str>, file_names: &Vec<String>) -> (index: IconIndex)
    ensures
        match icons_dir {
            Some(dir) => index.dir@ == dir@ && groups_icons(index.groups@, file_names@),
            None => index.groups@.len() == 0,
        },
        forall|i: int|
            0 <= i < index.groups@.len() ==> sorted_texts((#[trigger] index.groups@[i]).file_names@),
{
    let dir = match icons_dir {
        Some(d) => d,
        None => {
            return IconIndex { dir: String::new(), groups: Vec::new() };
        },
    };
    let mut groups: Vec<IconGroup> = Vec::new();
    for k in 0..file_names.len()
        invariant
            forall|i: int| 0 <= i < groups@.len() ==> (#[trigger] groups@[i]).file_names@.len() > 0,
            forall|i: int, j: int|
                0 <= i < j < groups@.len() ==> (#[trigger] groups@[i]).prefix@ != (
                #[trigger] groups@[j]).prefix@,
            forall|i: int|
                0 <= i < groups@.len() ==> (#[trigger] groups@[i]).file_names@ == with_prefix(
                    file_names@.take(k as int),
                    groups@[i].prefix@,
                ),
            forall|m: int|
                0 <= m < k && (#[trigger] icon_file_prefix(file_names@[m]@)) is Some ==> exists|
                    i: int,
                |
                    0 <= i < groups@.len() && Some((#[trigger] groups@[i]).prefix@)
                        == icon_file_prefix(file_names@[m]@),
    {
        let name = &file_names[k];
        let ghost taken = file_names@.take(k as int);
        proof {
            assert(file_names@.take(k + 1).drop_last() =~= taken);
            reveal_with_fuel(Seq::<_>::filter, 1);
        }
        match file_icon_prefix(name.as_str()) {
            Some(prefix) => {
                assert(icon_file_prefix(name@) == Some(prefix@));
                proof {
                    lemma_group_from(groups@, prefix@, 0);
                }
                match find_group(&groups, &prefix) {
                    Some(j) => {
                        let ghost before = groups@;
                        let copy = name.clone();
                        assert(copy@ == name@);
                        assert(before[j as int].prefix@ == prefix@);
                        groups[j].file_names.push(copy);
                        assert forall|i: int| 0 <= i < groups@.len() implies (
                        #[trigger] groups@[i]).file_names@ == with_prefix(
                            file_names@.take(k + 1),
                            groups@[i].prefix@,
                        ) by {
                            reveal_with_fuel(Seq::<_>::filter, 1);
                            assert(groups@[i].prefix == before[i].prefix);
                            assert(file_names@.take(k + 1).last() == copy);
                            let f = |n: String| icon_file_prefix(n@) == Some(groups@[i].prefix@);
                            assert(with_prefix(file_names@.take(k + 1), groups@[i].prefix@)
                                == file_names@.take(k + 1).filter(f));
                            assert(file_names@.take(k + 1).filter(f) == if f(copy) {
                                taken.filter(f).push(copy)
                            } else {
                                taken.filter(f)
                            });
                            if i != j {
                                assert(groups@[i] == before[i]);
                                assert(before[i].prefix@ != before[j as int].prefix@);
                                assert(!f(copy));
                            } else {
                                assert(f(copy));
                                assert(groups@[i].file_names@ == before[i].file_names@.push(copy));
                            }
                        }
                        assert forall|m: int|
                            0 <= m < k + 1 && (#[trigger] icon_file_prefix(
                                file_names@[m]@,
                            )) is Some implies exists|i: int|
                            0 <= i < groups@.len() && Some((#[trigger] groups@[i]).prefix@)
                                == icon_file_prefix(file_names@[m]@) by {
                            if m < k {
                                let i = choose|i: int|
                                    0 <= i < before.len() && Some((#[trigger] before[i]).prefix@)
                                        == icon_file_prefix(file_names@[m]@);
                                assert(groups@[i].prefix == before[i].prefix);
                            } else {
                                assert(groups@[j as int].prefix == before[j as int].prefix);
                            }
                        }
                    },
                    None => {
                        let ghost before = groups@;
                        let mut files: Vec<String> = Vec::new();
                        files.push(name.clone());
                        proof {
                            assert(with_prefix(taken, prefix@) =~= Seq::<String>::empty()) by {
                                let f = |n: String| icon_file_prefix(n@) == Some(prefix@);
                                if with_prefix(taken, prefix@).len() > 0 {
                                    taken.lemma_filter_contains_rev(f, with_prefix(taken, prefix@)[0]);
                                    assert(with_prefix(taken, prefix@).contains(
                                        with_prefix(taken, prefix@)[0],
                                    ));
                                    
                                    let m = choose|m: int|
                                        0 <= m < taken.len() && taken[m] == with_prefix(
                                            taken,
                                            prefix@,
                                        )[0];
                                    assert(icon_file_prefix(file_names@[m]@) is Some);
                                }
                            }
                            assert(files@ =~= with_prefix(file_names@.take(k + 1), prefix@));
                        }
                        groups.push(IconGroup { prefix, file_names: files });
                        assert forall|i: int| 0 <= i < groups@.len() implies (
                        #[trigger] groups@[i]).file_names@ == with_prefix(
                            file_names@.take(k + 1),
                            groups@[i].prefix@,
                        ) by {
                            if i < before.len() {
                                assert(groups@[i] == before[i]);
                            }
                        }
                        assert forall|m: int|
                            0 <= m < k + 1 && (#[trigger] icon_file_prefix(
                                file_names@[m]@,
                            )) is Some implies exists|i: int|
                            0 <= i < groups@.len() && Some((#[trigger] groups@[i]).prefix@)
                                == icon_file_prefix(file_names@[m]@) by {
                            if m < k {
                                let i = choose|i: int|
                                    0 <= i < before.len() && Some((#[trigger] before[i]).prefix@)
                                        == icon_file_prefix(file_names@[m]@);
                                assert(groups@[i] == before[i]);
                            } else {
                                assert(groups@[before.len() as int].prefix@ == prefix@);
                            }
                        }
                    },
                }
            },
            None => {
                assert forall|i: int| 0 <= i < groups@.len() implies (
                #[trigger] groups@[i]).file_names@ == with_prefix(
                    file_names@.take(k + 1),
                    groups@[i].prefix@,
                ) by {}
            },
        }
    }
    assert(file_names@.take(file_names@.len() as int) =~= file_names@);
    let mut sorted: Vec<IconGroup> = Vec::new();
    for i in 0..groups.len()
        invariant
            forall|a: int| 0 <= a < groups@.len() ==> (#[trigger] groups@[a]).file_names@.len() > 0,
            sorted@.len() == i,
            forall|a: int|
                0 <= a < i ==> {
                    &&& (#[trigger] sorted@[a]).prefix == groups@[a].prefix
                    &&& sorted@[a].file_names@.to_multiset() == groups@[a].file_names@.to_multiset()
                    &&& sorted_texts(sorted@[a].file_names@)
                    &&& sorted@[a].file_names@.len() > 0
                },
    {
        let files = sort_texts(&groups[i].file_names);
        proof {
            vstd::seq_lib::to_multiset_len(files@);
            vstd::seq_lib::to_multiset_len(groups@[i as int].file_names@);
        }
        sorted.push(IconGroup { prefix: groups[i].prefix.clone(), file_names: files });
    }
    assert forall|a: int, b: int|
        0 <= a < b < sorted@.len() implies (#[trigger] sorted@[a]).prefix@ != (
        #[trigger] sorted@[b]).prefix@ by {
        assert(groups@[a].prefix@ != groups@[b].prefix@);
    }
    assert forall|a: int|
        0 <= a < sorted@.len() implies (#[trigger] sorted@[a]).file_names@.to_multiset()
        == with_prefix(file_names@, sorted@[a].prefix@).to_multiset() by {
        assert(groups@[a].file_names@ == with_prefix(file_names@, groups@[a].prefix@));
    }
    assert forall|m: int|
        0 <= m < file_names@.len() && (#[trigger] icon_file_prefix(
            file_names@[m]@,
        )) is Some implies exists|i: int|
        0 <= i < sorted@.len() && Some((#[trigger] sorted@[i]).prefix@) == icon_file_prefix(
            file_names@[m]@,
        ) by {
        let i = choose|i: int|
            0 <= i < groups@.len() && Some((#[trigger] groups@[i]).prefix@) == icon_file_prefix(
                file_names@[m]@,
            );
        assert(sorted@[i].prefix == groups@[i].prefix);
    }
    IconIndex { dir: String::from_str(dir), groups: sorted }
}

/// The index of the first file name at or after `i` that ends with `suffix`.
pub open spec fn suffix_from(files: Seq<String>, suffix: Seq<char>, i: int) -> Option<int>
    decreases files.len() - i,
{
    if i < 0 || i >= files.len() {
        None
    } else if ends_with(files[i]@, suffix) {
        Some(i)
    } else {
        suffix_from(files, suffix, i + 1)
    }
}

/// The icon chosen among the files of a prefix: the first whose name ends
/// with `suffix`, else the first file.
pub open spec fn pick_icon(files: Seq<String>, suffix: Seq<char>) -> Option<Seq<char>> {
    match suffix_from(files, suffix, 0) {
        Some(i) => Some(files[i]@),
        None => if files.len() > 0 {
            Some(files[0]@)
        } else {
            None
        },
    }
}

/// The icon path of a species with the given spirit number and name: among
/// the icons of its prefix, the one named after the species, else the first.
pub open spec fn icon_for(index: IconIndex, spirit_no: Option<String>, name: Seq<char>) -> Option<
    Seq<char>,
> {
    match spirit_no {
        None => None,
        Some(s) => match spirit_prefix(s@) {
            None => None,
            Some(p) => match group_from(index.groups@, p, 0) {
                None => None,
                Some(j) => match pick_icon(
                    index.groups@[j].file_names@,
                    "_"@ + name + ".png"@,
                ) {
                    None => None,
                    Some(f) => Some(joined(index.dir@, f)),
                },
            },
        },
    }
}

/// The icon path of the species named `name` with the spirit number
/// `spirit_no`, if the index has one.
pub fn resolve_icon_path(index: &IconIndex, spirit_no: &Option<String>, name: &str) -> (r: Option<
    String,
>)
    ensures
        text_option_view(r) == icon_for(*index, *spirit_no, name@),
{
    let spirit = match spirit_no {
        Some(s) => s,
        None => {
            return None;
        },
    };
    let prefix = match normalize_spirit_no(spirit.as_str()) {
        Some(p) => p,
        None => {
            return None;
        },
    };
    let j = match find_group(&index.groups, &prefix) {
        Some(j) => j,
        None => {
            return None;
        },
    };
    proof {
        lemma_group_from(index.groups@, prefix@, 0);
        assert(group_from(index.groups@, prefix@, 0) == Some(j as int));
    }
    let candidates = &index.groups[j].file_names;
    let mut suffix = String::from_str("_");
    suffix.append(name);
    suffix.append(".png");
    assert(suffix@ == "_"@ + name@ + ".png"@);
    proof {
        lemma_suffix_from(candidates@, suffix@, 0);
    }
    for i in 0..candidates.len()
        invariant
            suffix_from(candidates@, suffix@, 0) == suffix_from(candidates@, suffix@, i as int),
            j < index.groups@.len(),
            candidates@ == index.groups@[j as int].file_names@,
            group_from(index.groups@, prefix@, 0) == Some(j as int),
            suffix@ == "_"@ + name@ + ".png"@,
            *spirit_no == Some(*spirit),
            spirit_prefix(spirit@) == Some(prefix@),
    {
        if text_ends_with(candidates[i].as_str(), suffix.as_str()) {
            assert(suffix_from(candidates@, suffix@, i as int) == Some(i as int));
            return Some(join_path(index.dir.as_str(), candidates[i].as_str()));
        }
    }
    if candidates.len() > 0 {
        Some(join_path(index.dir.as_str(), candidates[0].as_str()))
    } else {
        None
    }
}

proof fn lemma_suffix_from(files: Seq<String>, suffix: Seq<char>, i: int)
    requires
        0 <= i <= files.len(),
    ensures
        match suffix_from(files, suffix, i) {
            Some(k) => i <= k < files.len() && ends_with(files[k]@, suffix) && forall|m: int|
                i <= m < k ==> !ends_with(files[m]@, suffix),
            None => forall|k: int| i <= k < files.len() ==> !ends_with(files[k]@, suffix),
        },
    decreases files.len() - i,
{
    if i < files.len() && !ends_with(files[i]@, suffix) {
        lemma_suffix_from(files, suffix, i + 1);
    }
}

/// One row of the species query: a species joined with one of its moves,
/// or with none.
#[derive(Debug, Clone, PartialEq, Eq)]
pub struct SpeciesRow {
    pub pokemon_id: i64,
    pub name: String,
    pub element: String,
    pub evo_stage: String,
    pub ability: String,
    pub base_hp: i32,
    pub base_atk: i32,
    pub base_spatk: i32,
    pub base_def: i32,
    pub base_spdef: i32,
    pub base_speed: i32,
    pub spirit_no: Option<String>,
    pub move_id: Option<i64>,
    pub move_name: Option<String>,
    pub move_element: Option<String>,
    pub move_category: Option<String>,
    pub move_energy_cost: Option<i32>,
    pub move_power: Option<i32>,
    pub move_description: Option<String>,
}

/// One row of the evolution table.
#[derive(Debug, Clone, PartialEq, Eq)]
pub struct EvolutionRow {
    pub from_name: String,
    pub to_name: String,
    pub evo_level: Option<i32>,
    pub condition: Option<String>,
    pub chain_text: Option<String>,
}

/// The evolution a row records.
pub open spec fn evolution_of(r: EvolutionRow) -> Evolution {
    Evolution {
        to_name: r.to_name,
        evo_level: r.evo_level,
        condition: r.condition,
        chain_text: r.chain_text,
    }
}

/// The rows recorded under the species named `name`.
pub open spec fn recorded_under(name: Seq<char>) -> spec_fn(EvolutionRow) -> bool {
    |r: EvolutionRow| r.from_name@ == name
}

/// The evolutions of the species named `name`, in table order.
pub open spec fn evolutions_named(rows: Seq<EvolutionRow>, name: Seq<char>) -> Seq<Evolution> {
    rows.filter(recorded_under(name)).map_values(|r: EvolutionRow| evolution_of(r))
}

/// The evolutions of the species named `name`, in table order.
pub fn evolutions_for(rows: &Vec<EvolutionRow>, name: &str) -> (r: Vec<Evolution>)
    ensures
        r@ == evolutions_named(rows@, name@),
{
    let key = String::from_str(name);
    let mut out: Vec<Evolution> = Vec::new();
    assert(rows@.take(0).filter(recorded_under(name@)) =~= Seq::<
        EvolutionRow,
    >::empty()) by {
        reveal_with_fuel(Seq::<_>::filter, 1);
    }
    for i in 0..rows.len()
        invariant
            key@ == name@,
            out@ == evolutions_named(rows@.take(i as int), name@),
    {
        proof {
            assert(rows@.take(i + 1).drop_last() =~= rows@.take(i as int));
            reveal_with_fuel(Seq::<_>::filter, 1);
        }
        let row = &rows[i];
        if row.from_name == key {
            let evolution = Evolution {
                to_name: row.to_name.clone(),
                evo_level: row.evo_level,
                condition: copy_text_option(&row.condition),
                chain_text: copy_text_option(&row.chain_text),
            };
            out.push(evolution);
            assert(out@ =~= evolutions_named(rows@.take(i + 1), name@));
        } else {
            assert(out@ =~= evolutions_named(rows@.take(i + 1), name@));
        }
    }
    assert(rows@.take(rows@.len() as int) =~= rows@);
    out
}

/// The text of an optional column, or `default` when it is empty.
pub open spec fn text_or(o: Option<String>, default: Seq<char>) -> Seq<char> {
    match o {
        Some(s) => s@,
        None => default,
    }
}

/// An integer column, or zero when it is empty.
pub open spec fn number_or_zero(o: Option<i32>) -> i32 {
    match o {
        Some(n) => n,
        None => 0,
    }
}

/// A move deals damage when its power is positive; otherwise it is a status
/// move.
pub open spec fn effect_of_power(power: i32) -> MoveEffect {
    if power > 0 {
        MoveEffect::Damage { power }
    } else {
        MoveEffect::Status
    }
}

/// The element a move without one gets.
pub open spec fn default_move_element() -> Seq<char> {
    "普通"@
}

/// The category a move without one gets.
pub open spec fn default_move_category() -> Seq<char> {
    "状态"@
}

/// `m` is the move the row records.
pub open spec fn move_from_row(m: Move, r: SpeciesRow) -> bool {
    &&& r.move_id is Some
    &&& m.id@ == signed_decimal(r.move_id->Some_0 as int)
    &&& m.name@ == text_or(r.move_name, Seq::empty())
    &&& m.element@ == text_or(r.move_element, default_move_element())
    &&& m.category@ == text_or(r.move_category, default_move_category())
    &&& m.priority == 0
    &&& m.energy_cost == number_or_zero(r.move_energy_cost)
    &&& m.description@ == text_or(r.move_description, Seq::empty())
    &&& m.effect == effect_of_power(number_or_zero(r.move_power))
}

/// The rows whose moves species `k` learns: its rows with a move, without a
/// move whose id was already seen.
pub open spec fn move_rows(rows: Seq<SpeciesRow>, k: i64) -> Seq<SpeciesRow>
    decreases rows.len(),
{
    if rows.len() == 0 {
        Seq::empty()
    } else {
        let prev = move_rows(rows.drop_last(), k);
        let r = rows.last();
        if r.pokemon_id == k && r.move_id is Some && !(exists|j: int|
            0 <= j < prev.len() && signed_decimal((#[trigger] prev[j]).move_id->Some_0 as int)
                == signed_decimal(r.move_id->Some_0 as int)) {
            prev.push(r)
        } else {
            prev
        }
    }
}

/// The index of the first row of species `k`.
pub open spec fn first_row(rows: Seq<SpeciesRow>, k: i64) -> Option<int>
    decreases rows.len(),
{
    if rows.len() == 0 {
        None
    } else {
        match first_row(rows.drop_last(), k) {
            Some(f) => Some(f),
            None => if rows.last().pokemon_id == k {
                Some(rows.len() - 1)
            } else {
                None
            },
        }
    }
}

/// The stats a row records.
pub open spec fn stats_of(r: SpeciesRow) -> Stats {
    Stats {
        max_hp: r.base_hp,
        attack: r.base_atk,
        defense: r.base_def,
        speed: r.base_speed,
        special_attack: r.base_spatk,
        special_defense: r.base_spdef,
    }
}

/// `s` is the species the row `r` describes, apart from its learnset.
pub open spec fn species_from_row(
    s: PetSpeciesView,
    r: SpeciesRow,
    index: IconIndex,
    evolutions: Seq<EvolutionRow>,
) -> bool {
    &&& s.pokemon_id == r.pokemon_id
    &&& s.species_id@ == species_id_text(r.pokemon_id, r.name@)
    &&& s.name == r.name
    &&& s.element == r.element
    &&& s.evo_stage == r.evo_stage
    &&& s.ability == r.ability
    &&& s.spirit_no == r.spirit_no
    &&& text_option_view(s.icon_path) == icon_for(index, r.spirit_no, r.name@)
    &&& s.stats == stats_of(r)
    &&& s.evolutions == evolutions_named(evolutions, r.name@)
}

/// `learnset` holds the moves of `move_rows`, in order.
pub open spec fn learnset_from_rows(learnset: Seq<Move>, rows: Seq<SpeciesRow>, k: i64) -> bool {
    let kept = move_rows(rows, k);
    &&& learnset.len() == kept.len()
    &&& forall|i: int| 0 <= i < learnset.len() ==> move_from_row(#[trigger] learnset[i], kept[i])
}

/// `s` is species `s.pokemon_id` as the rows describe it: its fields from its
/// first row, its learnset from all its rows.
pub open spec fn assembled(
    s: PetSpeciesView,
    rows: Seq<SpeciesRow>,
    index: IconIndex,
    evolutions: Seq<EvolutionRow>,
) -> bool {
    &&& first_row(rows, s.pokemon_id) matches Some(f) && species_from_row(
        s,
        rows[f],
        index,
        evolutions,
    )
    &&& learnset_from_rows(s.learnset, rows, s.pokemon_id)
}

proof fn lemma_first_row(rows: Seq<SpeciesRow>, k: i64)
    ensures
        match first_row(rows, k) {
            Some(f) => 0 <= f < rows.len() && rows[f].pokemon_id == k,
            None => forall|j: int| 0 <= j < rows.len() ==> rows[j].pokemon_id != k,
        },
    decreases rows.len(),
{
    if rows.len() > 0 {
        lemma_first_row(rows.drop_last(), k);
        assert forall|j: int| 0 <= j < rows.len() - 1 implies rows.drop_last()[j] == rows[j] by {}
    }
}

/// The species a row describes, with no moves yet.
fn species_of_row(row: &SpeciesRow, index: &IconIndex, evolutions: &Vec<EvolutionRow>) -> (s:
    PetSpecies)
    ensures
        species_from_row(s@, *row, *index, evolutions@),
        s.learnset@.len() == 0,
{
    let stats = Stats {
        max_hp: row.base_hp,
        attack: row.base_atk,
        defense: row.base_def,
        speed: row.base_speed,
        special_attack: row.base_spatk,
        special_defense: row.base_spdef,
    };
    PetSpecies {
        pokemon_id: row.pokemon_id,
        species_id: species_id_for(row.pokemon_id, row.name.as_str()),
        name: row.name.clone(),
        element: row.element.clone(),
        evo_stage: row.evo_stage.clone(),
        ability: row.ability.clone(),
        spirit_no: copy_text_option(&row.spirit_no),
        icon_path: resolve_icon_path(index, &row.spirit_no, row.name.as_str()),
        stats,
        learnset: Vec::new(),
        evolutions: evolutions_for(evolutions, row.name.as_str()),
    }
}

/// A text column, or `default` when it is empty.
fn text_or_default(o: &Option<String>, default: &str) -> (r: String)
    ensures
        r@ == text_or(*o, default@),
{
    match o {
        Some(s) => s.clone(),
        None => String::from_str(default),
    }
}

/// The move a row with a move records; `id` is the move's id as text.
fn move_of_row(row: &SpeciesRow, id: String) -> (m: Move)
    requires
        row.move_id is Some,
        id@ == signed_decimal(row.move_id->Some_0 as int),
    ensures
        move_from_row(m, *row),
{
    let power = match row.move_power {
        Some(p) => p,
        None => 0,
    };
    proof {
        reveal_strlit("");
    }
    let m = Move {
        id,
        name: text_or_default(&row.move_name, ""),
        element: text_or_default(&row.move_element, "普通"),
        category: text_or_default(&row.move_category, "状态"),
        priority: 0,
        energy_cost: match row.move_energy_cost {
            Some(e) => e,
            None => 0,
        },
        description: text_or_default(&row.move_description, ""),
        effect: if power > 0 {
            MoveEffect::Damage { power }
        } else {
            MoveEffect::Status
        },
    };
    assert(m.name@ == text_or(row.move_name, Seq::empty()));
    assert(m.element@ == text_or(row.move_element, default_move_element()));
    assert(m.category@ == text_or(row.move_category, default_move_category()));
    assert(m.energy_cost == number_or_zero(row.move_energy_cost));
    assert(m.effect == effect_of_power(number_or_zero(row.move_power)));
    assert(m.id@ == signed_decimal(row.move_id->Some_0 as int));
    assert(m.description@ == text_or(row.move_description, Seq::empty()));
    assert(m.priority == 0);
    m
}

/// Whether some move of `learnset` has the id `key`.
fn has_move(learnset: &Vec<Move>, key: &String) -> (r: bool)
    ensures
        r == exists|j: int| 0 <= j < learnset@.len() && (#[trigger] learnset@[j]).id@ == key@,
{
    for j in 0..learnset.len()
        invariant
            forall|i: int| 0 <= i < j ==> (#[trigger] learnset@[i]).id@ != key@,
    {
        if learnset[j].id == *key {
            return true;
        }
    }
    false
}

/// Where the species `pokemon_id` is.
fn find_species(species: &Vec<PetSpecies>, pokemon_id: i64) -> (r: Option<usize>)
    ensures
        r matches Some(j) ==> j < species@.len() && species@[j as int].pokemon_id == pokemon_id,
        r is None ==> forall|j: int| 0 <= j < species@.len() ==> species@[j].pokemon_id != pokemon_id,
{
    for j in 0..species.len()
        invariant
            forall|i: int| 0 <= i < j ==> species@[i].pokemon_id != pokemon_id,
    {
        if species[j].pokemon_id == pokemon_id {
            return Some(j);
        }
    }
    None
}

proof fn lemma_move_rows_ids(rows: Seq<SpeciesRow>, k: i64)
    ensures
        forall|j: int|
            0 <= j < move_rows(rows, k).len() ==> (#[trigger] move_rows(rows, k)[j]).pokemon_id == k
                && move_rows(rows, k)[j].move_id is Some,
        (forall|j: int| 0 <= j < rows.len() ==> rows[j].pokemon_id != k) ==> move_rows(rows, k).len()
            == 0,
    decreases rows.len(),
{
    if rows.len() > 0 {
        lemma_move_rows_ids(rows.drop_last(), k);
        assert forall|j: int| 0 <= j < rows.len() - 1 implies rows.drop_last()[j] == rows[j] by {}
    }
}

/// The species the rows describe, in the order they first appear, each
/// assembled from its rows.
fn gather_species(
    rows: &Vec<SpeciesRow>,
    index: &IconIndex,
    evolutions: &Vec<EvolutionRow>,
) -> (species: Vec<PetSpecies>)
    ensures
        forall|a: int, b: int|
            0 <= a < b < species@.len() ==> (#[trigger] species@[a]).pokemon_id != (
            #[trigger] species@[b]).pokemon_id,
        forall|a: int|
            0 <= a < species@.len() ==> assembled(
                (#[trigger] species@[a])@,
                rows@,
                *index,
                evolutions@,
            ),
        forall|m: int|
            0 <= m < rows@.len() ==> exists|a: int|
                0 <= a < species@.len() && (#[trigger] species@[a]).pokemon_id == (
                #[trigger] rows@[m]).pokemon_id,
{
    let mut species: Vec<PetSpecies> = Vec::new();
    for i in 0..rows.len()
        invariant
            forall|a: int, b: int|
                0 <= a < b < species@.len() ==> (#[trigger] species@[a]).pokemon_id != (
                #[trigger] species@[b]).pokemon_id,
            forall|a: int|
                0 <= a < species@.len() ==> assembled(
                    (#[trigger] species@[a])@,
                    rows@.take(i as int),
                    *index,
                    evolutions@,
                ),
            forall|m: int|
                0 <= m < i ==> exists|a: int|
                    0 <= a < species@.len() && (#[trigger] species@[a]).pokemon_id == (
                    #[trigger] rows@[m]).pokemon_id,
    {
        let row = &rows[i];
        let k = row.pokemon_id;
        let ghost prev_rows = rows@.take(i as int);
        let ghost next_rows = rows@.take(i + 1);
        assert(next_rows.drop_last() =~= prev_rows);
        assert(next_rows.last() == *row);
        let ghost before = species@;
        let j = match find_species(&species, k) {
            Some(j) => j,
            None => {
                proof {
                    assert forall|m: int| 0 <= m < prev_rows.len() implies prev_rows[m].pokemon_id
                        != k by {
                        let a = choose|a: int|
                            0 <= a < species@.len() && (#[trigger] species@[a]).pokemon_id
                                == rows@[m].pokemon_id;
                    }
                    lemma_first_row(prev_rows, k);
                    lemma_move_rows_ids(prev_rows, k);
                }
                let fresh = species_of_row(row, index, evolutions);
                species.push(fresh);
                assert(assembled(species@[species@.len() - 1]@, prev_rows, *index, evolutions@)
                    == assembled(fresh@, prev_rows, *index, evolutions@));
                species.len() - 1
            },
        };
        let ghost middle = species@;
        proof {
            lemma_first_row(prev_rows, k);
            lemma_first_row(next_rows, k);
        }
        assert(first_row(next_rows, k) matches Some(f) && species_from_row(
            species@[j as int]@,
            next_rows[f],
            *index,
            evolutions@,
        ));
        assert(learnset_from_rows(species@[j as int].learnset@, prev_rows, k));
        match row.move_id {
            Some(move_id) => {
                let key = i64_text(move_id);
                let seen = has_move(&species[j].learnset, &key);
                let ghost kept = move_rows(prev_rows, k);
                assert(seen == exists|x: int|
                    0 <= x < kept.len() && signed_decimal((#[trigger] kept[x]).move_id->Some_0 as int)
                        == signed_decimal(move_id as int)) by {
                    if seen {
                        let x = choose|x: int|
                            0 <= x < species@[j as int].learnset@.len() && (
                            #[trigger] species@[j as int].learnset@[x]).id@ == key@;
                        assert(move_from_row(species@[j as int].learnset@[x], kept[x]));
                    }
                    if exists|x: int|
                        0 <= x < kept.len() && signed_decimal(
                            (#[trigger] kept[x]).move_id->Some_0 as int,
                        ) == signed_decimal(move_id as int) {
                        let x = choose|x: int|
                            0 <= x < kept.len() && signed_decimal(
                                (#[trigger] kept[x]).move_id->Some_0 as int,
                            ) == signed_decimal(move_id as int);
                        assert(move_from_row(species@[j as int].learnset@[x], kept[x]));
                        assert(species@[j as int].learnset@[x].id@ == key@);
                    }
                }
                if !seen {
                    let m = move_of_row(row, key);
                    let ghost old_learnset = species@[j as int].learnset@;
                    species[j].learnset.push(m);
                    assert(move_rows(next_rows, k) == kept.push(*row));
                    assert(species@[j as int].learnset@ == old_learnset.push(m));
                    assert(learnset_from_rows(species@[j as int].learnset@, next_rows, k)) by {
                        assert forall|x: int|
                            0 <= x < species@[j as int].learnset@.len() implies move_from_row(
                            #[trigger] species@[j as int].learnset@[x],
                            move_rows(next_rows, k)[x],
                        ) by {
                            if x < old_learnset.len() {
                                assert(species@[j as int].learnset@[x] == old_learnset[x]);
                            }
                        }
                    }
                } else {
                    assert(move_rows(next_rows, k) == kept);
                }
            },
            None => {
                assert(move_rows(next_rows, k) == move_rows(prev_rows, k));
            },
        }
        assert forall|a: int| 0 <= a < species@.len() implies assembled(
            (#[trigger] species@[a])@,
            next_rows,
            *index,
            evolutions@,
        ) by {
            if a != j {
                assert(species@[a] == middle[a]);
                let ka = species@[a].pokemon_id;
                assert(ka != k);
                assert(move_rows(next_rows, ka) == move_rows(prev_rows, ka));
                lemma_first_row(prev_rows, ka);
                assert(first_row(next_rows, ka) == first_row(prev_rows, ka));
                if a < before.len() {
                    assert(middle[a] == before[a]);
                }
            }
        }
        assert forall|a: int, b: int|
            0 <= a < b < species@.len() implies (#[trigger] species@[a]).pokemon_id != (
            #[trigger] species@[b]).pokemon_id by {
            assert(species@[a].pokemon_id == middle[a].pokemon_id);
            assert(species@[b].pokemon_id == middle[b].pokemon_id);
        }
        assert forall|m: int|
            0 <= m < i + 1 implies exists|a: int|
            0 <= a < species@.len() && (#[trigger] species@[a]).pokemon_id == (
            #[trigger] rows@[m]).pokemon_id by {
            if m < i {
                let a = choose|a: int|
                    0 <= a < before.len() && (#[trigger] before[a]).pokemon_id == rows@[m].pokemon_id;
                assert(species@[a].pokemon_id == before[a].pokemon_id);
            } else {
                assert(species@[j as int].pokemon_id == k);
            }
        }
    }
    assert(rows@.take(rows@.len() as int) =~= rows@);
    species
}

/// The species in increasing order of database id.
fn sort_by_pokemon_id(species: Vec<PetSpecies>) -> (sorted: Vec<PetSpecies>)
    requires
        forall|a: int, b: int|
            0 <= a < b < species@.len() ==> (#[trigger] species@[a]).pokemon_id != (
            #[trigger] species@[b]).pokemon_id,
    ensures
        sorted@.len() == species@.len(),
        forall|a: int, b: int|
            0 <= a < b < sorted@.len() ==> (#[trigger] sorted@[a]).pokemon_id < (
            #[trigger] sorted@[b]).pokemon_id,
        forall|a: int| 0 <= a < sorted@.len() ==> species@.contains(#[trigger] sorted@[a]),
        forall|b: int| 0 <= b < species@.len() ==> sorted@.contains(#[trigger] species@[b]),
{
    let ghost all = species@;
    let mut rest = species;
    let mut sorted: Vec<PetSpecies> = Vec::new();
    while rest.len() > 0
        invariant
            rest@ == all.take(rest@.len() as int),
            rest@.len() <= all.len(),
            sorted@.len() + rest@.len() == all.len(),
            forall|a: int, b: int|
                0 <= a < b < all.len() ==> (#[trigger] all[a]).pokemon_id != (
                #[trigger] all[b]).pokemon_id,
            forall|a: int, b: int|
                0 <= a < b < sorted@.len() ==> (#[trigger] sorted@[a]).pokemon_id < (
                #[trigger] sorted@[b]).pokemon_id,
            forall|a: int|
                0 <= a < sorted@.len() ==> exists|y: int|
                    rest@.len() <= y < all.len() && #[trigger] sorted@[a] == all[y],
            forall|y: int|
                rest@.len() <= y < all.len() ==> sorted@.contains(#[trigger] all[y]),
        decreases rest@.len(),
    {
        let n = rest.len();
        let x = rest.pop().unwrap();
        assert(x == all[n - 1]);
        assert(rest@ =~= all.take(n - 1));
        let mut pos: usize = 0;
        while pos < sorted.len() && sorted[pos].pokemon_id < x.pokemon_id
            invariant
                pos <= sorted@.len(),
                forall|a: int| 0 <= a < pos ==> (#[trigger] sorted@[a]).pokemon_id < x.pokemon_id,
            decreases sorted.len() - pos,
        {
            pos = pos + 1;
        }
        let ghost before = sorted@;
        proof {
            assert forall|a: int| 0 <= a < before.len() implies (#[trigger] before[a]).pokemon_id
                != x.pokemon_id by {
                let y = choose|y: int| n <= y < all.len() && #[trigger] before[a] == all[y];
                assert(all[n - 1].pokemon_id != all[y].pokemon_id);
            }
        }
        sorted.insert(pos, x);
        assert(sorted@ == before.insert(pos as int, x));
        assert forall|a: int, b: int|
            0 <= a < b < sorted@.len() implies (#[trigger] sorted@[a]).pokemon_id < (
            #[trigger] sorted@[b]).pokemon_id by {
            let p = pos as int;
            if b < p {
                assert(sorted@[a] == before[a] && sorted@[b] == before[b]);
            } else if b == p {
                assert(sorted@[a] == before[a]);
            } else if a == p {
                assert(sorted@[b] == before[b - 1]);
                if b - 1 > p {
                    assert(before[p].pokemon_id < before[b - 1].pokemon_id);
                }
                assert(!(before[p].pokemon_id < x.pokemon_id));
                assert(before[p].pokemon_id != x.pokemon_id);
            } else if a < p {
                assert(sorted@[a] == before[a] && sorted@[b] == before[b - 1]);
            } else {
                assert(sorted@[a] == before[a - 1] && sorted@[b] == before[b - 1]);
            }
        }
        assert forall|a: int| 0 <= a < sorted@.len() implies exists|y: int|
            n - 1 <= y < all.len() && #[trigger] sorted@[a] == all[y] by {
            let p = pos as int;
            if a == p {
                assert(sorted@[a] == all[n - 1]);
            } else if a < p {
                assert(sorted@[a] == before[a]);
                let y = choose|y: int| n <= y < all.len() && #[trigger] before[a] == all[y];
            } else {
                assert(sorted@[a] == before[a - 1]);
                let y = choose|y: int| n <= y < all.len() && #[trigger] before[a - 1] == all[y];
            }
        }
        assert forall|y: int| n - 1 <= y < all.len() implies sorted@.contains(#[trigger] all[y]) by {
            if y == n - 1 {
                assert(sorted@[pos as int] == all[y]);
            } else {
                assert(before.contains(all[y]));
                let a = choose|a: int| 0 <= a < before.len() && before[a] == all[y];
                if a < pos {
                    assert(sorted@[a] == all[y]);
                } else {
                    assert(sorted@[a + 1] == all[y]);
                }
            }
        }
    }
    assert forall|a: int| 0 <= a < sorted@.len() implies all.contains(#[trigger] sorted@[a]) by {
        let y = choose|y: int| 0 <= y < all.len() && #[trigger] sorted@[a] == all[y];
    }
    sorted
}

/// The species the rows describe, in increasing order of database id: each
/// from its first row, with the moves of all its rows, the first of each move
/// id only, and the evolutions recorded under its name.
pub fn load_species(
    rows: &Vec<SpeciesRow>,
    icon_index: &IconIndex,
    evolutions: &Vec<EvolutionRow>,
) -> (species: Vec<PetSpecies>)
    ensures
        forall|a: int, b: int|
            0 <= a < b < species@.len() ==> (#[trigger] species@[a]).pokemon_id < (
            #[trigger] species@[b]).pokemon_id,
        forall|a: int|
            0 <= a < species@.len() ==> assembled(
                (#[trigger] species@[a])@,
                rows@,
                *icon_index,
                evolutions@,
            ),
        forall|m: int|
            0 <= m < rows@.len() ==> exists|a: int|
                0 <= a < species@.len() && (#[trigger] species@[a]).pokemon_id == (
                #[trigger] rows@[m]).pokemon_id,
{
    let gathered = gather_species(rows, icon_index, evolutions);
    let ghost g = gathered@;
    let sorted = sort_by_pokemon_id(gathered);
    assert forall|a: int| 0 <= a < sorted@.len() implies assembled(
        (#[trigger] sorted@[a])@,
        rows@,
        *icon_index,
        evolutions@,
    ) by {
        assert(g.contains(sorted@[a]));
        let b = choose|b: int| 0 <= b < g.len() && g[b] == sorted@[a];
        assert(assembled(g[b]@, rows@, *icon_index, evolutions@));
    }
    assert forall|m: int| 0 <= m < rows@.len() implies exists|a: int|
        0 <= a < sorted@.len() && (#[trigger] sorted@[a]).pokemon_id == (
        #[trigger] rows@[m]).pokemon_id by {
        let b = choose|b: int| 0 <= b < g.len() && (#[trigger] g[b]).pokemon_id == rows@[m].pokemon_id;
        assert(sorted@.contains(g[b]));
        let a = choose|a: int| 0 <= a < sorted@.len() && sorted@[a] == g[b];
    }
    sorted
}

/// What is read from an NRC bundle: the rows of its species and evolution
/// queries, and the listing of its icon directory when there is one.
#[derive(Debug, Clone, PartialEq, Eq)]
pub struct BundleContents {
    pub species_rows: Vec<SpeciesRow>,
    pub evolution_rows: Vec<EvolutionRow>,
    pub icons_dir: Option<String>,
    pub icon_file_names: Vec<String>,
}

/// The icon index of a bundle's contents.
pub open spec fn bundle_icon_index(contents: BundleContents, index: IconIndex) -> bool {
    &&& match contents.icons_dir {
        Some(dir) => index.dir@ == dir@ && groups_icons(index.groups@, contents.icon_file_names@),
        None => index.groups@.len() == 0,
    }
    &&& forall|i: int|
        0 <= i < index.groups@.len() ==> sorted_texts((#[trigger] index.groups@[i]).file_names@)
}

/// The catalog of a bundle's contents: its species in increasing order of
/// database id, each assembled from its rows with icons from the index.
pub open spec fn catalog_of(
    catalog: Seq<PetSpeciesView>,
    contents: BundleContents,
    index: IconIndex,
) -> bool {
    &&& bundle_icon_index(contents, index)
    &&& forall|a: int, b: int|
        0 <= a < b < catalog.len() ==> (#[trigger] catalog[a]).pokemon_id < (
        #[trigger] catalog[b]).pokemon_id
    &&& forall|a: int|
        0 <= a < catalog.len() ==> assembled(
            #[trigger] catalog[a],
            contents.species_rows@,
            index,
            contents.evolution_rows@,
        )
    &&& forall|m: int|
        0 <= m < contents.species_rows@.len() ==> exists|a: int|
            0 <= a < catalog.len() && (#[trigger] catalog[a]).pokemon_id == (
            #[trigger] contents.species_rows@[m]).pokemon_id
}

/// Loads catalogs from the NRC data bundle.
#[derive(Debug, Clone, Copy, Default)]
pub struct NrcCatalogLoader;

impl NrcCatalogLoader {
    /// The catalog of what was read from a bundle.
    pub fn load_from_rows(contents: &BundleContents) -> (catalog: PetCatalog)
        ensures
            exists|index: IconIndex| catalog_of(catalog@, *contents, index),
    {
        let icons_dir = match &contents.icons_dir {
            Some(d) => Some(d.as_str()),
            None => None,
        };
        let icon_index = build_icon_index(icons_dir, &contents.icon_file_names);
        let species = load_species(
            &contents.species_rows,
            &icon_index,
            &contents.evolution_rows,
        );
        let ghost sv = species@;
        let catalog = PetCatalog::new(species);
        assert(catalog@ == species_views(sv));
        assert(catalog@.len() == sv.len());
        assert forall|a: int| 0 <= a < catalog@.len() implies catalog@[a] == (#[trigger] sv[a])@ by {}
        assert(bundle_icon_index(*contents, icon_index));
        assert forall|a: int, b: int|
            0 <= a < b < catalog@.len() implies (#[trigger] catalog@[a]).pokemon_id < (
            #[trigger] catalog@[b]).pokemon_id by {
            assert(catalog@[a] == sv[a]@ && catalog@[b] == sv[b]@);
        }
        assert forall|a: int| 0 <= a < catalog@.len() implies assembled(
            #[trigger] catalog@[a],
            contents.species_rows@,
            icon_index,
            contents.evolution_rows@,
        ) by {
            assert(catalog@[a] == sv[a]@);
        }
        assert forall|m: int| 0 <= m < contents.species_rows@.len() implies exists|a: int|
            0 <= a < catalog@.len() && (#[trigger] catalog@[a]).pokemon_id == (
            #[trigger] contents.species_rows@[m]).pokemon_id by {
            let a = choose|a: int|
                0 <= a < sv.len() && (#[trigger] sv[a]).pokemon_id
                    == contents.species_rows@[m].pokemon_id;
            assert(catalog@[a] == sv[a]@);
        }
        assert(catalog_of(catalog@, *contents, icon_index));
        catalog
    }
}

/// The catalog of what was read from a bundle.
pub fn load_catalog(contents: &BundleContents) -> (catalog: PetCatalog)
    ensures
        exists|index: IconIndex| catalog_of(catalog@, *contents, index),
{
    NrcCatalogLoader::load_from_rows(contents)
}

/// Where the NRC bundle lies relative to the manifest directory of the
/// bestiary package: `<manifest_dir>/../../data/nrc_pokemon_data_bundle`.
pub fn bundled_bundle_dir(manifest_dir: &str) -> (dir: String)
    ensures
        dir@ == joined(joined(joined(joined(manifest_dir@, ".."@), ".."@), "data"@),
            "nrc_pokemon_data_bundle"@),
{
    let a = join_path(manifest_dir, "..");
    let b = join_path(a.as_str(), "..");
    let c = join_path(b.as_str(), "data");
    join_path(c.as_str(), "nrc_pokemon_data_bundle")
}


/// The moves kept for a species have distinct ids, and each row kept has a
/// move.
proof fn lemma_move_rows_distinct(rows: Seq<SpeciesRow>, k: i64)
    ensures
        forall|i: int| 0 <= i < move_rows(rows, k).len() ==> (#[trigger] move_rows(rows, k)[i]).move_id is Some,
        forall|i: int, j: int|
            0 <= i < j < move_rows(rows, k).len() ==> signed_decimal(
                (#[trigger] move_rows(rows, k)[i]).move_id->Some_0 as int,
            ) != signed_decimal((#[trigger] move_rows(rows, k)[j]).move_id->Some_0 as int),
    decreases rows.len(),
{
    if rows.len() > 0 {
        lemma_move_rows_distinct(rows.drop_last(), k);
        let prev = move_rows(rows.drop_last(), k);
        let kept = move_rows(rows, k);
        if kept.len() > prev.len() {
            assert(kept == prev.push(rows.last()));
            assert forall|i: int, j: int| 0 <= i < j < kept.len() implies signed_decimal(
                (#[trigger] kept[i]).move_id->Some_0 as int,
            ) != signed_decimal((#[trigger] kept[j]).move_id->Some_0 as int) by {
                if j == kept.len() - 1 {
                    assert(kept[i] == prev[i]);
                } else {
                    assert(kept[i] == prev[i] && kept[j] == prev[j]);
                }
            }
            assert forall|i: int| 0 <= i < kept.len() implies (#[trigger] kept[i]).move_id is Some by {
                if i < prev.len() {
                    assert(kept[i] == prev[i]);
                }
            }
        }
    }
}

/// A catalog loaded from a bundle holds each database id once, and each
/// species learns each move once: no two moves of a learnset share an id.
pub proof fn law_loaded_catalog_has_no_duplicates(
    catalog: Seq<PetSpeciesView>,
    contents: BundleContents,
    index: IconIndex,
)
    requires
        catalog_of(catalog, contents, index),
    ensures
        forall|a: int, b: int|
            0 <= a < b < catalog.len() ==> (#[trigger] catalog[a]).pokemon_id != (
            #[trigger] catalog[b]).pokemon_id,
        forall|a: int, i: int, j: int|
            0 <= a < catalog.len() && 0 <= i < j < catalog[a].learnset.len() ==> (
            #[trigger] catalog[a].learnset[i]).id@ != (#[trigger] catalog[a].learnset[j]).id@,
{
    assert forall|a: int, i: int, j: int|
        0 <= a < catalog.len() && 0 <= i < j < catalog[a].learnset.len() implies (
        #[trigger] catalog[a].learnset[i]).id@ != (#[trigger] catalog[a].learnset[j]).id@ by {
        let s = catalog[a];
        assert(assembled(s, contents.species_rows@, index, contents.evolution_rows@));
        let kept = move_rows(contents.species_rows@, s.pokemon_id);
        lemma_move_rows_distinct(contents.species_rows@, s.pokemon_id);
        assert(move_from_row(s.learnset[i], kept[i]));
        assert(move_from_row(s.learnset[j], kept[j]));
    }
}


/// In a sorted list, a name at index `i` comes no later than one at `j >= i`.
proof fn lemma_sorted_le(f: Seq<String>, i: int, j: int)
    requires
        sorted_texts(f),
        0 <= i <= j < f.len(),
    ensures
        lex_le(f[i]@, f[j]@),
{
    if i == j {
        lemma_lex_refl(f[i]@);
    }
}

/// Lists with the same multiset hold the same names.
proof fn lemma_shared_name(f1: Seq<String>, f2: Seq<String>, i: int)
    requires
        f1.to_multiset() == f2.to_multiset(),
        0 <= i < f1.len(),
    ensures
        exists|j: int| 0 <= j < f2.len() && f2[j] == f1[i],
{
    assert(f1.contains(f1[i]));
    vstd::seq_lib::to_multiset_contains(f1, f1[i]);
    vstd::seq_lib::to_multiset_contains(f2, f1[i]);
}

/// The icon picked among a group's files depends only on which files the
/// group holds, not on how equal names are ordered.
proof fn lemma_pick_icon_determined(f1: Seq<String>, f2: Seq<String>, suffix: Seq<char>)
    requires
        sorted_texts(f1),
        sorted_texts(f2),
        f1.to_multiset() == f2.to_multiset(),
    ensures
        pick_icon(f1, suffix) == pick_icon(f2, suffix),
{
    broadcast use vstd::seq_lib::group_to_multiset_ensures;

    lemma_suffix_from(f1, suffix, 0);
    lemma_suffix_from(f2, suffix, 0);
    vstd::seq_lib::to_multiset_len(f1);
    vstd::seq_lib::to_multiset_len(f2);
    match (suffix_from(f1, suffix, 0), suffix_from(f2, suffix, 0)) {
        (Some(k1), Some(k2)) => {
            lemma_shared_name(f1, f2, k1);
            let j = choose|j: int| 0 <= j < f2.len() && f2[j] == f1[k1];
            assert(ends_with(f2[j]@, suffix));
            lemma_sorted_le(f2, k2, j);
            lemma_shared_name(f2, f1, k2);
            let i = choose|i: int| 0 <= i < f1.len() && f1[i] == f2[k2];
            assert(ends_with(f1[i]@, suffix));
            lemma_sorted_le(f1, k1, i);
            lemma_lex_antisym(f1[k1]@, f2[k2]@);
        },
        (Some(k1), None) => {
            lemma_shared_name(f1, f2, k1);
            let j = choose|j: int| 0 <= j < f2.len() && f2[j] == f1[k1];
            assert(!ends_with(f2[j]@, suffix));
        },
        (None, Some(k2)) => {
            lemma_shared_name(f2, f1, k2);
            let i = choose|i: int| 0 <= i < f1.len() && f1[i] == f2[k2];
            assert(!ends_with(f1[i]@, suffix));
        },
        (None, None) => {
            if f1.len() > 0 {
                lemma_shared_name(f1, f2, 0);
                let j = choose|j: int| 0 <= j < f2.len() && f2[j] == f1[0];
                lemma_sorted_le(f2, 0, j);
                vstd::seq_lib::to_multiset_len(f1);
                vstd::seq_lib::to_multiset_len(f2);
                lemma_shared_name(f2, f1, 0);
                let i = choose|i: int| 0 <= i < f1.len() && f1[i] == f2[0];
                lemma_sorted_le(f1, 0, i);
                lemma_lex_antisym(f1[0]@, f2[0]@);
            }
        },
    }
}

/// An index that groups the icons of `names` has a group with prefix `p`
/// exactly when some icon file carries `p`.
proof fn lemma_group_exists(groups: Seq<IconGroup>, names: Seq<String>, p: Seq<char>)
    requires
        groups_icons(groups, names),
    ensures
        (exists|i: int| 0 <= i < groups.len() && groups[i].prefix@ == p) <==> (exists|k: int|
            0 <= k < names.len() && icon_file_prefix(names[k]@) == Some(p)),
{
    broadcast use vstd::seq_lib::group_to_multiset_ensures;

    if exists|i: int| 0 <= i < groups.len() && groups[i].prefix@ == p {
        let i = choose|i: int| 0 <= i < groups.len() && groups[i].prefix@ == p;
        assert(groups[i].file_names@.len() > 0);
        let f = groups[i].file_names@[0];
        let w = with_prefix(names, p);
        assert(w.to_multiset() == groups[i].file_names@.to_multiset());
        lemma_shared_name(groups[i].file_names@, w, 0);
        assert(w.contains(f));
        names.lemma_filter_contains_rev(|n: String| icon_file_prefix(n@) == Some(p), f);
        let k = choose|k: int| 0 <= k < names.len() && names[k] == f;
        assert(icon_file_prefix(names[k]@) == Some(p)) by {
            let a = choose|a: int| 0 <= a < w.len() && w[a] == f;
            names.lemma_filter_pred(|n: String| icon_file_prefix(n@) == Some(p), a);
        }
    }
    if exists|k: int| 0 <= k < names.len() && icon_file_prefix(names[k]@) == Some(p) {
        let k = choose|k: int| 0 <= k < names.len() && icon_file_prefix(names[k]@) == Some(p);
        assert(icon_file_prefix(names[k]@) is Some);
        let i = choose|i: int|
            0 <= i < groups.len() && Some((#[trigger] groups[i]).prefix@) == icon_file_prefix(
                names[k]@,
            );
        assert(groups[i].prefix@ == p);
    }
}

/// The icon a species gets is the same under any index of the same bundle.
proof fn lemma_icon_for_determined(
    contents: BundleContents,
    i1: IconIndex,
    i2: IconIndex,
    spirit_no: Option<String>,
    name: Seq<char>,
)
    requires
        bundle_icon_index(contents, i1),
        bundle_icon_index(contents, i2),
    ensures
        icon_for(i1, spirit_no, name) == icon_for(i2, spirit_no, name),
{
    if let Some(s) = spirit_no {
        if let Some(p) = spirit_prefix(s@) {
            lemma_group_from(i1.groups@, p, 0);
            lemma_group_from(i2.groups@, p, 0);
            match contents.icons_dir {
                None => {},
                Some(dir) => {
                    let names = contents.icon_file_names@;
                    lemma_group_exists(i1.groups@, names, p);
                    lemma_group_exists(i2.groups@, names, p);
                    match (group_from(i1.groups@, p, 0), group_from(i2.groups@, p, 0)) {
                        (Some(j1), Some(j2)) => {
                            let f1 = i1.groups@[j1].file_names@;
                            let f2 = i2.groups@[j2].file_names@;
                            assert(f1.to_multiset() == with_prefix(names, p).to_multiset());
                            assert(f2.to_multiset() == with_prefix(names, p).to_multiset());
                            lemma_pick_icon_determined(f1, f2, "_"@ + name + ".png"@);
                        },
                        (Some(j1), None) => {
                            assert(i1.groups@[j1].prefix@ == p);
                        },
                        (None, Some(j2)) => {
                            assert(i2.groups@[j2].prefix@ == p);
                        },
                        (None, None) => {},
                    }
                },
            }
        }
    }
}


/// Two strictly increasing lists of ids holding the same ids are equal.
proof fn lemma_increasing_ids_equal(s: Seq<i64>, t: Seq<i64>)
    requires
        forall|i: int, j: int| 0 <= i < j < s.len() ==> s[i] < s[j],
        forall|i: int, j: int| 0 <= i < j < t.len() ==> t[i] < t[j],
        forall|i: int| 0 <= i < s.len() ==> t.contains(s[i]),
        forall|i: int| 0 <= i < t.len() ==> s.contains(t[i]),
    ensures
        s == t,
    decreases s.len(),
{
    if s.len() == 0 {
        if t.len() > 0 {
            assert(s.contains(t[0]));
        }
        assert(s =~= t);
    } else if t.len() == 0 {
        assert(t.contains(s[0]));
    } else {
        let x = s.last();
        let y = t.last();
        assert(t.contains(x));
        assert(s.contains(y));
        let a = choose|a: int| 0 <= a < t.len() && t[a] == x;
        let b = choose|b: int| 0 <= b < s.len() && s[b] == y;
        assert(x == y) by {
            if a < t.len() - 1 {
                assert(t[a] < t[t.len() - 1]);
            }
            if b < s.len() - 1 {
                assert(s[b] < s[s.len() - 1]);
            }
        }
        let s0 = s.drop_last();
        let t0 = t.drop_last();
        assert forall|i: int| 0 <= i < s0.len() implies t0.contains(s0[i]) by {
            assert(s[i] < x);
            assert(t.contains(s[i]));
            let j = choose|j: int| 0 <= j < t.len() && t[j] == s[i];
            assert(j != t.len() - 1);
            assert(t0[j] == t[j]);
        }
        assert forall|i: int| 0 <= i < t0.len() implies s0.contains(t0[i]) by {
            assert(t[i] < y);
            assert(s.contains(t[i]));
            let j = choose|j: int| 0 <= j < s.len() && s[j] == t[i];
            assert(j != s.len() - 1);
            assert(s0[j] == s[j]);
        }
        lemma_increasing_ids_equal(s0, t0);
        assert(s =~= t0.push(y));
        assert(t =~= t0.push(y));
    }
}

/// Two moves agree: equal, with texts compared by their characters.
pub open spec fn same_move(a: Move, b: Move) -> bool {
    &&& a.id@ == b.id@
    &&& a.name@ == b.name@
    &&& a.element@ == b.element@
    &&& a.category@ == b.category@
    &&& a.priority == b.priority
    &&& a.energy_cost == b.energy_cost
    &&& a.description@ == b.description@
    &&& a.effect == b.effect
}

/// Two species agree: equal, with texts compared by their characters.
pub open spec fn same_species(a: PetSpeciesView, b: PetSpeciesView) -> bool {
    &&& a.pokemon_id == b.pokemon_id
    &&& a.species_id@ == b.species_id@
    &&& a.name == b.name
    &&& a.element == b.element
    &&& a.evo_stage == b.evo_stage
    &&& a.ability == b.ability
    &&& a.spirit_no == b.spirit_no
    &&& text_option_view(a.icon_path) == text_option_view(b.icon_path)
    &&& a.stats == b.stats
    &&& a.evolutions == b.evolutions
    &&& a.learnset.len() == b.learnset.len()
    &&& forall|i: int| 0 <= i < a.learnset.len() ==> same_move(#[trigger] a.learnset[i], b.learnset[i])
}

/// The catalog of a bundle is determined by what was read from it: any two
/// catalogs that both describe the same contents hold the same species in
/// the same order. So loading the same contents twice, through
/// `load_catalog` or `NrcCatalogLoader::load_from_rows`, gives the same
/// catalog.
pub proof fn law_bundle_catalog_is_determined(
    c1: Seq<PetSpeciesView>,
    i1: IconIndex,
    c2: Seq<PetSpeciesView>,
    i2: IconIndex,
    contents: BundleContents,
)
    requires
        catalog_of(c1, contents, i1),
        catalog_of(c2, contents, i2),
    ensures
        c1.len() == c2.len(),
        forall|a: int| 0 <= a < c1.len() ==> same_species(#[trigger] c1[a], c2[a]),
{
    let rows = contents.species_rows@;
    let s = c1.map_values(|p: PetSpeciesView| p.pokemon_id);
    let t = c2.map_values(|p: PetSpeciesView| p.pokemon_id);
    assert forall|i: int| 0 <= i < s.len() implies t.contains(s[i]) by {
        assert(assembled(c1[i], rows, i1, contents.evolution_rows@));
        lemma_first_row(rows, c1[i].pokemon_id);
        let f = first_row(rows, c1[i].pokemon_id)->Some_0;
        let b = choose|b: int| 0 <= b < c2.len() && (#[trigger] c2[b]).pokemon_id == (#[trigger] rows[f]).pokemon_id;
        assert(t[b] == s[i]);
    }
    assert forall|i: int| 0 <= i < t.len() implies s.contains(t[i]) by {
        assert(assembled(c2[i], rows, i2, contents.evolution_rows@));
        lemma_first_row(rows, c2[i].pokemon_id);
        let f = first_row(rows, c2[i].pokemon_id)->Some_0;
        let b = choose|b: int| 0 <= b < c1.len() && (#[trigger] c1[b]).pokemon_id == (#[trigger] rows[f]).pokemon_id;
        assert(s[b] == t[i]);
    }
    assert forall|i: int, j: int| 0 <= i < j < s.len() implies s[i] < s[j] by {
        assert(c1[i].pokemon_id < c1[j].pokemon_id);
    }
    assert forall|i: int, j: int| 0 <= i < j < t.len() implies t[i] < t[j] by {
        assert(c2[i].pokemon_id < c2[j].pokemon_id);
    }
    lemma_increasing_ids_equal(s, t);
    assert forall|a: int| 0 <= a < c1.len() implies same_species(#[trigger] c1[a], c2[a]) by {
        assert(s[a] == t[a]);
        let x = c1[a];
        let y = c2[a];
        assert(assembled(x, rows, i1, contents.evolution_rows@));
        assert(assembled(y, rows, i2, contents.evolution_rows@));
        let f = first_row(rows, x.pokemon_id)->Some_0;
        let r = rows[f];
        lemma_icon_for_determined(contents, i1, i2, r.spirit_no, r.name@);
        let kept = move_rows(rows, x.pokemon_id);
        assert forall|i: int| 0 <= i < x.learnset.len() implies same_move(#[trigger] x.learnset[i], y.learnset[i]) by {
            assert(move_from_row(x.learnset[i], kept[i]));
            assert(move_from_row(y.learnset[i], kept[i]));
        }
    }
}


/// Each evolution listed for a species is one row of the evolution table
/// recorded under its name, in table order, carrying that row's target,
/// level, condition and chain text.
pub proof fn law_evolutions_carry_their_rows(rows: Seq<EvolutionRow>, name: Seq<char>)
    ensures
        ({
            let kept = rows.filter(recorded_under(name));
            let evolutions = evolutions_named(rows, name);
            &&& evolutions.len() == kept.len()
            &&& forall|i: int|
                0 <= i < kept.len() ==> {
                    &&& (#[trigger] evolutions[i]).to_name == kept[i].to_name
                    &&& evolutions[i].evo_level == kept[i].evo_level
                    &&& evolutions[i].condition == kept[i].condition
                    &&& evolutions[i].chain_text == kept[i].chain_text
                    &&& kept[i].from_name@ == name
                }
        }),
{
    let f = recorded_under(name);
    let kept = rows.filter(f);
    let e = evolutions_named(rows, name);
    assert(e.len() == kept.len());
    assert forall|i: int| 0 <= i < kept.len() implies {
        &&& (#[trigger] e[i]).to_name == kept[i].to_name
        &&& e[i].evo_level == kept[i].evo_level
        &&& e[i].condition == kept[i].condition
        &&& e[i].chain_text == kept[i].chain_text
        &&& kept[i].from_name@ == name
    } by {
        rows.lemma_filter_pred(f, i);
        assert(e[i] == evolution_of(kept[i]));
    }
}

/// Each species of a catalog loaded from a bundle takes its stats from the
/// first row of its database id, column by column: hit points from
/// `base_hp`, attack from `base_atk`, defense from `base_def`, speed from
/// `base_speed`, special attack from `base_spatk` and special defense from
/// `base_spdef`.
pub proof fn law_loaded_stats_come_from_their_columns(
    catalog: Seq<PetSpeciesView>,
    contents: BundleContents,
    index: IconIndex,
)
    requires
        catalog_of(catalog, contents, index),
    ensures
        forall|a: int|
            0 <= a < catalog.len() ==> exists|m: int|
                {
                    &&& 0 <= m < contents.species_rows@.len()
                    &&& (#[trigger] contents.species_rows@[m]).pokemon_id == (#[trigger] catalog[a]).pokemon_id
                    &&& forall|j: int|
                        0 <= j < m ==> contents.species_rows@[j].pokemon_id != catalog[a].pokemon_id
                    &&& catalog[a].name == contents.species_rows@[m].name
                    &&& catalog[a].stats.max_hp == contents.species_rows@[m].base_hp
                    &&& catalog[a].stats.attack == contents.species_rows@[m].base_atk
                    &&& catalog[a].stats.defense == contents.species_rows@[m].base_def
                    &&& catalog[a].stats.speed == contents.species_rows@[m].base_speed
                    &&& catalog[a].stats.special_attack == contents.species_rows@[m].base_spatk
                    &&& catalog[a].stats.special_defense == contents.species_rows@[m].base_spdef
                },
{
    let rows = contents.species_rows@;
    assert forall|a: int| 0 <= a < catalog.len() implies exists|m: int|
        {
            &&& 0 <= m < rows.len()
            &&& (#[trigger] rows[m]).pokemon_id == (#[trigger] catalog[a]).pokemon_id
            &&& forall|j: int| 0 <= j < m ==> rows[j].pokemon_id != catalog[a].pokemon_id
            &&& catalog[a].name == rows[m].name
            &&& catalog[a].stats.max_hp == rows[m].base_hp
            &&& catalog[a].stats.attack == rows[m].base_atk
            &&& catalog[a].stats.defense == rows[m].base_def
            &&& catalog[a].stats.speed == rows[m].base_speed
            &&& catalog[a].stats.special_attack == rows[m].base_spatk
            &&& catalog[a].stats.special_defense == rows[m].base_spdef
        } by {
        assert(assembled(catalog[a], rows, index, contents.evolution_rows@));
        lemma_first_row_is_first(rows, catalog[a].pokemon_id);
        let f = first_row(rows, catalog[a].pokemon_id)->Some_0;
        assert(rows[f].pokemon_id == catalog[a].pokemon_id);
    }
}

/// The first row of `k` comes before every other row of `k`.
proof fn lemma_first_row_is_first(rows: Seq<SpeciesRow>, k: i64)
    ensures
        first_row(rows, k) matches Some(f) ==> 0 <= f < rows.len() && rows[f].pokemon_id == k
            && forall|j: int| 0 <= j < f ==> rows[j].pokemon_id != k,
    decreases rows.len(),
{
    if rows.len() > 0 {
        lemma_first_row_is_first(rows.drop_last(), k);
        lemma_first_row(rows.drop_last(), k);
        assert forall|j: int| 0 <= j < rows.len() - 1 implies rows.drop_last()[j] == rows[j] by {}
    }
}

} // verus!
