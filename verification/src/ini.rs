//! The INI text of a store. The text is read by `config` and written by
//! `rust-ini`; what happens between the two, the library does itself, on
//! tables of sections.

use vstd::prelude::*;
use std::collections::HashMap;
use crate::table::ascending;
use crate::table::distinct;
use crate::table::lookup;
use crate::table::has_name;
use crate::table::put;
use crate::table::lemma_lookup;
use crate::table::lemma_lookup_at;
use crate::table::lemma_ascending_unique;

verus! {

/// The keys and values of one section.
pub type Items = Vec<(String, String)>;

/// Sections by name, each with its keys and values.
pub type Sections = Vec<(String, Vec<(String, String)>)>;

/// The mathematical value of `Items`.
pub type ItemsView = Seq<(Seq<char>, Seq<char>)>;

/// The mathematical value of `Sections`.
pub type SectionsView = Seq<(Seq<char>, Seq<(Seq<char>, Seq<char>)>)>;

/// The sections of an INI file in memory, as `rust-ini` holds them: in file
/// order, the general section under `None`.
pub type FileView = Seq<(Option<Seq<char>>, Seq<(Seq<char>, Seq<char>)>)>;

/// A table of sections in its one normal form: the sections in ascending
/// order of their names, the entries of each in ascending order of their
/// keys.
pub open spec fn canonical(s: SectionsView) -> bool {
    &&& ascending(s)
    &&& forall|i: int| 0 <= i < s.len() ==> ascending((#[trigger] s[i]).1)
}

/// The entries of a section as a map from key to value.
pub open spec fn items_map(items: ItemsView) -> Map<Seq<char>, Seq<char>> {
    Map::new(|k: Seq<char>| has_name(items, k), |k: Seq<char>| lookup(items, k)->0)
}

/// The sections of a table as a map from name to entries.
pub open spec fn sections_map(s: SectionsView) -> Map<Seq<char>, Map<Seq<char>, Seq<char>>> {
    Map::new(|n: Seq<char>| has_name(s, n), |n: Seq<char>| items_map(lookup(s, n)->0))
}

/// The table in normal form that holds exactly the sections of `m`.
pub open spec fn table_of(m: Map<Seq<char>, Map<Seq<char>, Seq<char>>>) -> SectionsView {
    choose|s: SectionsView| canonical(s) && sections_map(s) == m
}

/// `rust-ini`'s file in memory.
#[verifier::external_type_specification]
#[verifier::external_body]
pub struct ExIni(ini::Ini);

/// `rust-ini`'s reason for refusing a text.
#[verifier::external_type_specification]
#[verifier::external_body]
pub struct ExParseError(ini::ParseError);

/// `config`'s reason for refusing a text.
#[verifier::external_type_specification]
#[verifier::external_body]
pub struct ExConfigError(config::ConfigError);

/// What an `Ini` holds: its sections in the order in which it lists them,
/// each with its name (`None` for the general section) and its properties in
/// their order.
pub uninterp spec fn ini_sections(ini: ini::Ini) -> Seq<(Option<Seq<char>>, Seq<(Seq<char>, Seq<char>)>)>;

/// The text that `rust-ini` writes for these sections, with `\n` between
/// lines, `=` between key and value, and its basic escapes.
pub uninterp spec fn ini_text(sections: Seq<(Option<Seq<char>>, Seq<(Seq<char>, Seq<char>)>)>) -> Seq<char>;

/// The sections that `rust-ini` reads from a text, `None` where it refuses
/// the text.
pub uninterp spec fn parsed_ini(text: Seq<char>) -> Option<Seq<(Option<Seq<char>>, Seq<(Seq<char>, Seq<char>)>)>>;

/// The sections that `config` makes of an INI text, read into a map from
/// section name to a map from key to value; `None` where it refuses the text
/// or the text has another shape.
pub uninterp spec fn parsed_sections(text: Seq<char>) -> Option<Map<Seq<char>, Map<Seq<char>, Seq<char>>>>;

/// The file takes `key` as the newest property of section `name` without
/// touching what it holds: no section before the last bears the name, and
/// the last, if it bears it, does not hold the key yet.
pub open spec fn takes(file: FileView, name: Seq<char>, key: Seq<char>) -> bool {
    &&& forall|i: int| 0 <= i < file.len() - 1 ==> (#[trigger] file[i]).0 != Some(name)
    &&& file.len() > 0 && file.last().0 == Some(name) ==> forall|j: int|
        0 <= j < file.last().1.len() ==> (#[trigger] file.last().1[j]).0 != key
}

/// The file after `key = value` was set in section `name`, where it `takes`
/// that: the property is added to the last section if that bears the name,
/// and a new last section is made for it otherwise.
pub open spec fn with_property(
    file: FileView,
    name: Seq<char>,
    key: Seq<char>,
    value: Seq<char>,
) -> FileView {
    if file.len() > 0 && file.last().0 == Some(name) {
        file.update(file.len() - 1, (Some(name), file.last().1.push((key, value))))
    } else {
        file.push((Some(name), seq![(key, value)]))
    }
}

/// The file that holds only an empty general section.
pub open spec fn blank_file() -> FileView {
    seq![(None::<Seq<char>>, Seq::<(Seq<char>, Seq<char>)>::empty())]
}

/// `Ini::new`: the new file holds the general section, which is empty, and
/// nothing else.
#[verifier::external_body]
fn ini_new() -> (r: ini::Ini)
    ensures
        ini_sections(r) == blank_file(),
{
    ini::Ini::new()
}

/// `Ini::with_section(..).set(..)`: where no earlier section bears the name
/// and the key is new, the property goes to the end of the last section if
/// that bears the name, else into a new section at the end.
#[verifier::external_body]
fn ini_set(file: &mut ini::Ini, name: &str, key: &str, value: &str)
    requires
        takes(ini_sections(*old(file)), name@, key@),
    ensures
        ini_sections(*final(file)) == with_property(ini_sections(*old(file)), name@, key@, value@),
{
    file.with_section(Some(name)).set(key, value);
}

/// `Ini::write_to_opt` into memory, with `\n`, `=` and the basic escapes:
/// the text depends on what the file holds and on nothing else.
#[verifier::external_body]
fn ini_write(file: &ini::Ini) -> (r: String)
    ensures
        r@ == ini_text(ini_sections(*file)),
{
    let mut buf: Vec<u8> = Vec::new();
    let opt = ini::WriteOption {
        escape_policy: ini::EscapePolicy::Basics,
        line_separator: ini::LineSeparator::CR,
        kv_separator: "=",
    };
    let _ = file.write_to_opt(&mut buf, opt);
    String::from_utf8_lossy(&buf).into_owned()
}

/// `Ini::load_from_str`: the file read from a text depends on the text
/// alone.
#[verifier::external_body]
fn ini_read(text: &str) -> (r: Result<ini::Ini, ini::ParseError>)
    ensures
        match r {
            Ok(file) => parsed_ini(text@) == Some(ini_sections(file)),
            Err(_) => parsed_ini(text@) is None,
        },
{
    ini::Ini::load_from_str(text)
}

/// `Ini::iter` and `Properties::iter`: hands out what the file holds,
/// section by section and property by property, in the file's order.
#[verifier::external_body]
fn ini_entries(file: &ini::Ini) -> (r: Vec<(Option<String>, Items)>)
    ensures
        r.deep_view() == ini_sections(*file),
{
    file.iter().map(
        |(name, props)|
            (
                name.map(|n| n.to_string()),
                props.iter().map(|(k, v)| (k.to_string(), v.to_string())).collect(),
            ),
    ).collect()
}

/// A file whose section names `config` takes as plain names: nothing stands
/// outside a section, and no section name holds a `]`, so that none is read
/// as a subscript, nor is one so long that its parts nest too deep.
pub open spec fn plain(file: FileView) -> bool {
    forall|i: int|
        0 <= i < file.len() ==> match (#[trigger] file[i]).0 {
            None => file[i].1.len() == 0,
            Some(name) => plain_name(name),
        }
}

/// The longest section name that is read.
pub const MAX_SECTION_NAME: usize = 1024;

/// A section name that `config` takes as a plain name, or as a path of few
/// parts: it holds no `]` and is not longer than `MAX_SECTION_NAME`.
pub open spec fn plain_name(name: Seq<char>) -> bool {
    !name.contains(']') && name.len() <= MAX_SECTION_NAME
}

/// `config`'s INI source, built and read into a map of maps of strings: the
/// sections depend on the text alone. It is called only on a text whose
/// names are plain, where `config` grows no array and nests no deeper than
/// a name of that length has parts.
#[verifier::external_body]
fn read_sections(text: &str) -> (r: Result<Sections, config::ConfigError>)
    requires
        parsed_ini(text@) is Some,
        plain(parsed_ini(text@)->0),
    ensures
        match r {
            Ok(v) => parsed_sections(text@) == Some(sections_map(v.deep_view())),
            Err(_) => parsed_sections(text@) is None,
        },
{
    let source = config::File::from_str(text, config::FileFormat::Ini);
    let built = config::Config::builder().add_source(source).build()?;
    let map = built.try_deserialize::<HashMap<String, HashMap<String, String>>>()?;
    Ok(map.into_iter().map(|(name, items)| (name, items.into_iter().collect())).collect())
}

/// What the file holds after the sections of `s` were set in it one after
/// the other, each property in its turn: a section without properties leaves
/// no trace.
pub open spec fn written(s: SectionsView) -> FileView
    decreases s.len(),
{
    if s.len() == 0 {
        blank_file()
    } else if s.last().1.len() == 0 {
        written(s.drop_last())
    } else {
        written(s.drop_last()).push((Some(s.last().0), s.last().1))
    }
}

/// Every section of `written(s)` but the general one bears the name of a
/// section of `s`.
proof fn lemma_written_names(s: SectionsView, k: int)
    requires
        0 <= k < written(s).len(),
    ensures
        match written(s)[k].0 {
            None => true,
            Some(name) => exists|i: int| 0 <= i < s.len() && (#[trigger] s[i]).0 == name,
        },
    decreases s.len(),
{
    if s.len() > 0 {
        let t = s.drop_last();
        if k < written(t).len() {
            lemma_written_names(t, k);
            match written(t)[k].0 {
                None => {},
                Some(name) => {
                    let i = choose|i: int| 0 <= i < t.len() && (#[trigger] t[i]).0 == name;
                    assert(s[i] == t[i]);
                },
            }
        } else {
            assert(s[s.len() - 1].0 == s.last().0);
        }
    }
}

/// Whether a section name is plain.
fn is_plain_name(name: &str) -> (r: bool)
    ensures
        r == plain_name(name@),
{
    let n = name.unicode_len();
    if n > MAX_SECTION_NAME {
        return false;
    }
    let mut i: usize = 0;
    while i < n
        invariant
            n == name@.len(),
            i <= n,
            forall|j: int| 0 <= j < i ==> name@[j] != ']',
        decreases n - i,
    {
        if name.get_char(i) == ']' {
            return false;
        }
        i = i + 1;
    }
    true
}

/// Whether all names of a file are plain.
pub fn is_plain(file: &Vec<(Option<String>, Items)>) -> (r: bool)
    ensures
        r == plain(file.deep_view()),
{
    let ghost f = file.deep_view();
    let mut i: usize = 0;
    while i < file.len()
        invariant
            f == file.deep_view(),
            i <= file.len(),
            forall|j: int|
                0 <= j < i ==> match (#[trigger] f[j]).0 {
                    None => f[j].1.len() == 0,
                    Some(name) => plain_name(name),
                },
        decreases file.len() - i,
    {
        assert(f[i as int] == (file[i as int].0.deep_view(), file[i as int].1.deep_view()));
        let fine = match &file[i].0 {
            None => file[i].1.len() == 0,
            Some(name) => is_plain_name(name.as_str()),
        };
        if !fine {
            return false;
        }
        i = i + 1;
    }
    true
}

/// Two lists of sections whose entries stand in ascending order, and which
/// hold the same sections, hold the same entries under every name.
pub proof fn lemma_same_entries(a: SectionsView, b: SectionsView)
    requires
        forall|i: int| 0 <= i < a.len() ==> ascending((#[trigger] a[i]).1),
        forall|i: int| 0 <= i < b.len() ==> ascending((#[trigger] b[i]).1),
        sections_map(a) == sections_map(b),
    ensures
        forall|n: Seq<char>| lookup(a, n) == lookup(b, n),
{
    assert forall|n: Seq<char>| lookup(a, n) == lookup(b, n) by {
        assert(sections_map(a).dom().contains(n) == has_name(a, n));
        assert(sections_map(b).dom().contains(n) == has_name(b, n));
        if has_name(a, n) {
            let x = lookup(a, n)->0;
            let y = lookup(b, n)->0;
            lemma_lookup(a, n);
            lemma_lookup(b, n);
            let i = choose|i: int| 0 <= i < a.len() && #[trigger] a[i] == (n, x);
            let j = choose|j: int| 0 <= j < b.len() && #[trigger] b[j] == (n, y);
            assert(ascending(a[i].1) && ascending(b[j].1));
            assert(sections_map(a)[n] == sections_map(b)[n]);
            assert forall|k: Seq<char>| lookup(x, k) == lookup(y, k) by {
                assert(items_map(x).dom().contains(k) == has_name(x, k));
                assert(items_map(y).dom().contains(k) == has_name(y, k));
                if has_name(x, k) {
                    assert(items_map(x)[k] == items_map(y)[k]);
                }
            }
            lemma_ascending_unique(x, y);
        }
    }
}

/// Two tables in normal form that hold the same sections are the same table.
pub proof fn lemma_canonical_unique(a: SectionsView, b: SectionsView)
    requires
        canonical(a),
        canonical(b),
        sections_map(a) == sections_map(b),
    ensures
        a == b,
{
    lemma_same_entries(a, b);
    lemma_ascending_unique(a, b);
}

/// A table in normal form is the table of the sections it holds.
pub proof fn lemma_table_of(s: SectionsView)
    requires
        canonical(s),
    ensures
        table_of(sections_map(s)) == s,
{
    let t = table_of(sections_map(s));
    lemma_canonical_unique(s, t);
}

/// Both are absent, or both hold the same entries.
pub open spec fn alike(a: Option<ItemsView>, b: Option<ItemsView>) -> bool {
    match (a, b) {
        (None, None) => true,
        (Some(x), Some(y)) => items_map(x) == items_map(y),
        _ => false,
    }
}

/// The entries of a section in ascending order of their keys; of two entries
/// with one key the later one stays.
pub fn sorted_items(items: &Items) -> (r: Items)
    ensures
        ascending(r.deep_view()),
        forall|k: Seq<char>| lookup(r.deep_view(), k) == lookup(items.deep_view(), k),
        items_map(r.deep_view()) == items_map(items.deep_view()),
{
    let ghost s = items.deep_view();
    let mut out: Items = Vec::new();
    let mut j: usize = 0;
    assert(s.take(0) =~= Seq::empty());
    while j < items.len()
        invariant
            s == items.deep_view(),
            j <= items.len(),
            ascending(out.deep_view()),
            forall|k: Seq<char>| lookup(out.deep_view(), k) == lookup(s.take(j as int), k),
        decreases items.len() - j,
    {
        assert(s[j as int] == (items[j as int].0@, items[j as int].1@));
        assert(s.take(j + 1).drop_last() =~= s.take(j as int));
        put(&mut out, items[j].0.clone(), items[j].1.clone());
        j = j + 1;
    }
    assert(s.take(j as int) =~= s);
    assert(items_map(out.deep_view()) =~= items_map(s));
    out
}

/// The table in normal form that holds the given sections; of two sections
/// with one name the later one stays.
pub fn sorted_sections(raw: &Sections) -> (r: Sections)
    ensures
        canonical(r.deep_view()),
        sections_map(r.deep_view()) == sections_map(raw.deep_view()),
{
    let ghost s = raw.deep_view();
    let mut out: Sections = Vec::new();
    let mut i: usize = 0;
    assert(s.take(0) =~= Seq::empty());
    while i < raw.len()
        invariant
            s == raw.deep_view(),
            i <= raw.len(),
            canonical(out.deep_view()),
            forall|n: Seq<char>|
                alike(#[trigger] lookup(out.deep_view(), n), lookup(s.take(i as int), n)),
        decreases raw.len() - i,
    {
        let ghost before = out.deep_view();
        assert(s[i as int] == (raw[i as int].0@, raw[i as int].1.deep_view()));
        assert(s.take(i + 1).drop_last() =~= s.take(i as int));
        let items = sorted_items(&raw[i].1);
        let ghost t = items.deep_view();
        put(&mut out, raw[i].0.clone(), items);
        proof {
            let after = out.deep_view();
            assert forall|k: int| 0 <= k < after.len() implies ascending(
                (#[trigger] after[k]).1,
            ) by {
                lemma_lookup_at(after, k);
                if after[k].0 != s[i as int].0 {
                    lemma_lookup(before, after[k].0);
                }
            }
        }
        i = i + 1;
    }
    assert(s.take(i as int) =~= s);
    assert(sections_map(out.deep_view()) =~= sections_map(s));
    out
}

/// Reads the sections of an INI text into a table in normal form.
///
/// The text is refused where `rust-ini` refuses it, where something stands
/// outside a section or a section name holds a `]`, and where `config`
/// cannot read it into sections of keys and values.
pub fn parse(text: &str) -> (r: Option<Sections>)
    ensures
        match r {
            Some(v) => {
                &&& readable(text@)
                &&& canonical(v.deep_view())
                &&& sections_map(v.deep_view()) == parsed_sections(text@)->0
                &&& v.deep_view() == text_table(text@)
            },
            None => !readable(text@),
        },
{
    match ini_read(text) {
        Err(_) => None,
        Ok(file) => {
            let entries = ini_entries(&file);
            if !is_plain(&entries) {
                None
            } else {
                match read_sections(text) {
                    Err(_) => None,
                    Ok(raw) => {
                        let out = sorted_sections(&raw);
                        proof {
                            lemma_table_of(out.deep_view());
                        }
                        Some(out)
                    },
                }
            }
        },
    }
}

/// The table of a readable text: the sections that `config` reads from it,
/// in normal form.
pub open spec fn text_table(text: Seq<char>) -> SectionsView {
    table_of(parsed_sections(text)->0)
}

/// A text that `parse` reads.
pub open spec fn readable(text: Seq<char>) -> bool {
    &&& parsed_ini(text) is Some
    &&& plain(parsed_ini(text)->0)
    &&& parsed_sections(text) is Some
}

/// Writes sections as INI text, in the order given, each with its entries in
/// the order given. A section without entries is not written.
pub fn render(sections: &Sections) -> (r: String)
    requires
        distinct(sections.deep_view()),
        forall|i: int| 0 <= i < sections.len() ==> distinct((#[trigger] sections.deep_view()[i]).1),
    ensures
        r@ == ini_text(written(sections.deep_view())),
{
    let ghost s = sections.deep_view();
    let mut file = ini_new();
    let mut i: usize = 0;
    assert(s.take(0) =~= Seq::empty());
    while i < sections.len()
        invariant
            s == sections.deep_view(),
            i <= sections.len(),
            distinct(s),
            forall|k: int| 0 <= k < s.len() ==> distinct((#[trigger] s[k]).1),
            ini_sections(file) == written(s.take(i as int)),
        decreases sections.len() - i,
    {
        let name = &sections[i].0;
        let items = &sections[i].1;
        let ghost before = ini_sections(file);
        let ghost its = s[i as int].1;
        proof {
            assert(s[i as int] == (name@, items.deep_view()));
            assert forall|k: int| 0 <= k < before.len() implies (#[trigger] before[k]).0 != Some(
                name@,
            ) by {
                lemma_written_names(s.take(i as int), k);
                if before[k].0 == Some(name@) {
                    let a = choose|a: int|
                        0 <= a < s.take(i as int).len() && (#[trigger] s.take(i as int)[a]).0
                            == name@;
                    assert(s.take(i as int)[a] == s[a]);
                    assert(s[a].0 != s[i as int].0);
                }
            }
        }
        let mut j: usize = 0;
        while j < items.len()
            invariant
                j <= items.len(),
                its == items.deep_view(),
                distinct(its),
                forall|k: int| 0 <= k < before.len() ==> (#[trigger] before[k]).0 != Some(name@),
                ini_sections(file) == if j == 0 {
                    before
                } else {
                    before.push((Some(name@), its.take(j as int)))
                },
            decreases items.len() - j,
        {
            proof {
                assert(its[j as int] == (items[j as int].0@, items[j as int].1@));
                let f = ini_sections(file);
                if j > 0 {
                    assert forall|k: int| 0 <= k < f.last().1.len() implies (
                    #[trigger] f.last().1[k]).0 != items[j as int].0@ by {
                        assert(f.last().1[k] == its[k]);
                        assert(its[k].0 != its[j as int].0);
                    }
                    assert forall|k: int| 0 <= k < f.len() - 1 implies (#[trigger] f[k]).0 != Some(
                        name@,
                    ) by {
                        assert(f[k] == before[k]);
                    }
                } else if f.len() > 0 {
                    assert(f.last() == before[before.len() - 1]);
                }
            }
            ini_set(&mut file, name.as_str(), items[j].0.as_str(), items[j].1.as_str());
            proof {
                let g = ini_sections(file);
                let e = (items[j as int].0@, items[j as int].1@);
                if j == 0 {
                    if before.len() > 0 {
                        assert(before.last() == before[before.len() - 1]);
                    }
                    assert(its.take(1) =~= seq![e]);
                    assert(g == before.push((Some(name@), its.take(1))));
                } else {
                    assert(its.take(j + 1) =~= its.take(j as int).push(e));
                    assert(g =~= before.push((Some(name@), its.take(j + 1))));
                }
            }
            j = j + 1;
        }
        proof {
            let t = s.take(i + 1);
            assert(t.drop_last() =~= s.take(i as int));
            assert(t.last() == s[i as int]);
            assert(its.take(its.len() as int) =~= its);
        }
        i = i + 1;
    }
    assert(s.take(i as int) =~= s);
    ini_write(&file)
}

} // verus!
