//! Translation files: which keys a source file holds, which are missing from
//! a language file, the request text for a batch of keys, the reading of a
//! translated reply, and the languages to translate into.
use vstd::prelude::*;
use crate::json::{
    get_nested_value, get_path, lemma_members_model, members_model, path_keys, set_nested_value,
    set_path, JsonValue, JsonView, SetPathError,
};
use crate::text::{
    chars_of, concat_chars, copy_text, lines, lines_exec, push_char, push_text, split_once,
    string_of, text_eq, trim, trim_exec, views, find_from_exec, lemma_find_from, slice_chars,
    find, string_views,
};

verus! {

// ---------------------------------------------------------------------------
// Key paths of a document
// ---------------------------------------------------------------------------

/// The path of member `key` below the path `prefix`: `prefix.key`, or `key`
/// at the top.
pub open spec fn join_path(prefix: Seq<char>, key: Seq<char>) -> Seq<char> {
    if prefix.len() == 0 {
        key
    } else {
        prefix + seq!['.'] + key
    }
}

/// The paths of the string values below `v`, members in order, depth first
/// (a value that is neither an object nor a string has none).
pub open spec fn value_paths(v: JsonView, prefix: Seq<char>) -> Seq<Seq<char>>
    decreases v,
{
    match v {
        JsonView::Object(es) => members_paths(es, prefix),
        _ => seq![],
    }
}

/// The paths of the string values below the members `es`.
pub open spec fn members_paths(es: Seq<(Seq<char>, JsonView)>, prefix: Seq<char>) -> Seq<
    Seq<char>,
>
    decreases es,
{
    if es.len() == 0 {
        seq![]
    } else {
        members_paths(es.subrange(0, es.len() - 1), prefix) + member_paths(
            es[es.len() - 1],
            prefix,
        )
    }
}

/// The paths contributed by one member: its own path when it is a string,
/// else the paths below it.
pub open spec fn member_paths(e: (Seq<char>, JsonView), prefix: Seq<char>) -> Seq<Seq<char>>
    decreases e,
{
    let p = join_path(prefix, e.0);
    if e.1 is Str {
        seq![p]
    } else {
        value_paths(e.1, p)
    }
}

/// The path below `prefix`.
fn join_path_exec(prefix: &String, key: &String) -> (r: String)
    ensures
        r@ == join_path(prefix@, key@),
{
    if prefix.as_str().is_empty() {
        copy_text(key.as_str())
    } else {
        let mut r = copy_text(prefix.as_str());
        push_char(&mut r, '.');
        push_text(&mut r, key.as_str());
        r
    }
}

/// The paths of the string values in a translation document, below the path
/// `prefix` (`""` for the whole document).
pub fn extract_all_paths(value: &JsonValue, prefix: &String) -> (r: Vec<String>)
    ensures
        string_views(r@) == value_paths(value.model(), prefix@),
    decreases value,
{
    let mut paths: Vec<String> = Vec::new();
    match value {
        JsonValue::Object(entries) => {
            let ghost es = members_model(entries@);
            proof {
                lemma_members_model(entries@);
            }
            assert(es.subrange(0, 0) =~= seq![]);
            let mut i: usize = 0;
            while i < entries.len()
                invariant
                    i <= entries.len(),
                    *value is Object,
                    value->Object_0 == *entries,
                    es == members_model(entries@),
                    es.len() == entries.len(),
                    forall|j: int|
                        0 <= j < entries.len() ==> #[trigger] es[j] == (
                            entries@[j].0@,
                            entries@[j].1.model(),
                        ),
                    string_views(paths@) == members_paths(es.subrange(0, i as int), prefix@),
                decreases entries.len() - i,
            {
                let ghost before = paths@;
                let current = join_path_exec(prefix, &entries[i].0);
                assert(es.subrange(0, i + 1).subrange(0, i as int) =~= es.subrange(0, i as int));
                assert(es.subrange(0, i + 1)[i as int] == es[i as int]);
                match &entries[i].1 {
                    JsonValue::Str(_) => {
                        assert(es[i as int].1 is Str);
                        assert(member_paths(es[i as int], prefix@) == seq![current@]);
                        paths.push(current);
                        assert(string_views(paths@) =~= string_views(before) + seq![current@]);
                    },
                    other => {
                        assert(!(other.model() is Str));
                        assert(member_paths(es[i as int], prefix@) == value_paths(
                            other.model(),
                            current@,
                        ));
                        assert(*value is Object);
                        assert(value->Object_0 == *entries);
                        assert(decreases_to!(*value => value->Object_0));
                        assert(decreases_to!(*entries => entries@));
                        assert(decreases_to!(entries@ => entries@[i as int]));
                        assert(decreases_to!(entries@[i as int] => entries@[i as int].1));
                        assert(decreases_to!(*value => entries@[i as int].1));
                        let mut sub = extract_all_paths(other, &current);
                        paths.append(&mut sub);
                        assert(string_views(paths@) =~= string_views(before) + value_paths(
                            other.model(),
                            current@,
                        ));
                    },
                }
                i += 1;
            }
            assert(es.subrange(0, i as int) =~= es);
        },
        _ => {},
    }
    paths
}

/// The paths among `all` that have no value in `target`, in order.
pub open spec fn missing_paths(target: JsonView, all: Seq<Seq<char>>) -> Seq<Seq<char>>
    decreases all.len(),
{
    if all.len() == 0 {
        seq![]
    } else {
        missing_paths(target, all.drop_last()) + if get_path(
            target,
            path_keys(all.last()),
        ) is None {
            seq![all.last()]
        } else {
            seq![]
        }
    }
}

/// The paths among `all_paths` that have no value in `target`, in order.
pub fn find_missing_paths(target: &JsonValue, all_paths: &Vec<String>) -> (r: Vec<String>)
    ensures
        string_views(r@) == missing_paths(target.model(), string_views(all_paths@)),
{
    let ghost all = string_views(all_paths@);
    let mut missing: Vec<String> = Vec::new();
    let mut i: usize = 0;
    assert(all.take(0) =~= seq![]);
    while i < all_paths.len()
        invariant
            i <= all_paths.len(),
            all == string_views(all_paths@),
            string_views(missing@) == missing_paths(target.model(), all.take(i as int)),
        decreases all_paths.len() - i,
    {
        let ghost before = missing@;
        assert(all.take(i + 1).drop_last() =~= all.take(i as int));
        assert(all.take(i + 1).last() == all_paths@[i as int]@);
        if get_nested_value(target, all_paths[i].as_str()).is_none() {
            missing.push(all_paths[i].clone());
            assert(string_views(missing@) =~= string_views(before) + seq![all_paths@[i as int]@]);
        }
        i += 1;
    }
    assert(all.take(i as int) =~= all);
    missing
}

// ---------------------------------------------------------------------------
// Request and reply texts
// ---------------------------------------------------------------------------

/// The views of a sequence of string pairs.
pub open spec fn pair_views(v: Seq<(String, String)>) -> Seq<(Seq<char>, Seq<char>)> {
    v.map_values(|p: (String, String)| (p.0@, p.1@))
}

/// The translation that one reply line gives: a line `path||text` whose
/// trimmed path is one of `paths` gives the trimmed path and text.
pub open spec fn reply_pair(line: Seq<char>, paths: Seq<Seq<char>>) -> Seq<
    (Seq<char>, Seq<char>),
> {
    match split_once(line, "||"@) {
        Some((a, b)) => if paths.contains(trim(a)) {
            seq![(trim(a), trim(b))]
        } else {
            seq![]
        },
        None => seq![],
    }
}

/// The translations that the reply lines `ls` give, in order.
pub open spec fn reply_pairs(ls: Seq<Seq<char>>, paths: Seq<Seq<char>>) -> Seq<
    (Seq<char>, Seq<char>),
>
    decreases ls.len(),
{
    if ls.len() == 0 {
        seq![]
    } else {
        reply_pairs(ls.drop_last(), paths) + reply_pair(ls.last(), paths)
    }
}

/// `str::split_once` with a string pattern.
pub fn split_once_exec(s: &Vec<char>, p: &Vec<char>) -> (r: Option<(Vec<char>, Vec<char>)>)
    ensures
        match r {
            Some((a, b)) => split_once(s@, p@) == Some((a@, b@)),
            None => split_once(s@, p@) is None,
        },
{
    proof {
        lemma_find_from(s@, p@, 0);
    }
    match find_from_exec(s, p, 0) {
        Some(k) => {
            let a = slice_chars(s, 0, k);
            let b = slice_chars(s, k + p.len(), s.len());
            assert(a@ =~= s@.take(k as int));
            assert(b@ =~= s@.skip(k + p.len()));
            Some((a, b))
        },
        None => None,
    }
}

/// Whether one of the strings `v` equals `s`.
pub fn contains_string(v: &Vec<String>, s: &Vec<char>) -> (r: bool)
    ensures
        r == string_views(v@).contains(s@),
{
    let mut i: usize = 0;
    while i < v.len()
        invariant
            i <= v.len(),
            forall|j: int| 0 <= j < i ==> v@[j]@ != s@,
        decreases v.len() - i,
    {
        if crate::text::chars_eq(&chars_of(v[i].as_str()), s) {
            assert(string_views(v@)[i as int] == s@);
            return true;
        }
        i += 1;
    }
    assert forall|j: int| 0 <= j < string_views(v@).len() implies string_views(v@)[j] != s@ by {
        assert(string_views(v@)[j] == v@[j]@);
    }
    false
}

/// The translations in a reply: each line `path||text` whose trimmed path
/// was asked for gives the trimmed path and the trimmed text.
pub fn parse_translation_response(response: &str, paths: &Vec<String>) -> (r: Vec<(String, String)>)
    ensures
        pair_views(r@) == reply_pairs(lines(response@), string_views(paths@)),
{
    let sep = chars_of("||");
    let ls = lines_exec(&chars_of(response));
    let ghost all = views(ls@);
    let mut results: Vec<(String, String)> = Vec::new();
    let mut i: usize = 0;
    assert(all.take(0) =~= seq![]);
    while i < ls.len()
        invariant
            i <= ls.len(),
            sep@ == "||"@,
            all == views(ls@),
            all == lines(response@),
            pair_views(results@) == reply_pairs(all.take(i as int), string_views(paths@)),
        decreases ls.len() - i,
    {
        let ghost before = results@;
        assert(all.take(i + 1).drop_last() =~= all.take(i as int));
        assert(all.take(i + 1).last() == ls@[i as int]@);
        match split_once_exec(&ls[i], &sep) {
            Some((a, b)) => {
                let path = trim_exec(&a);
                let text = trim_exec(&b);
                if contains_string(paths, &path) {
                    results.push((string_of(&path), string_of(&text)));
                    assert(pair_views(results@) =~= pair_views(before) + seq![(path@, text@)]);
                }
            },
            None => {},
        }
        i += 1;
    }
    assert(all.take(i as int) =~= all);
    results
}

/// The request line for one path: `path||text` and a line break when the
/// source holds a string there, else nothing.
pub open spec fn batch_line(source: JsonView, path: Seq<char>) -> Seq<char> {
    match get_path(source, path_keys(path)) {
        Some(JsonView::Str(t)) => path + "||"@ + t + seq!['\n'],
        _ => seq![],
    }
}

/// The request lines for the paths, in order.
pub open spec fn batch_text(source: JsonView, paths: Seq<Seq<char>>) -> Seq<char>
    decreases paths.len(),
{
    if paths.len() == 0 {
        seq![]
    } else {
        batch_text(source, paths.drop_last()) + batch_line(source, paths.last())
    }
}

/// The paths that have a request line, in order.
pub open spec fn batch_paths(source: JsonView, paths: Seq<Seq<char>>) -> Seq<Seq<char>>
    decreases paths.len(),
{
    if paths.len() == 0 {
        seq![]
    } else {
        batch_paths(source, paths.drop_last()) + if batch_line(source, paths.last()).len() > 0 {
            seq![paths.last()]
        } else {
            seq![]
        }
    }
}

/// The request lines for a batch of paths and the paths they are for.
pub fn translation_batch(source: &JsonValue, paths: &Vec<String>) -> (r: (String, Vec<String>))
    ensures
        r.0@ == batch_text(source.model(), string_views(paths@)),
        string_views(r.1@) == batch_paths(source.model(), string_views(paths@)),
{
    let ghost ps = string_views(paths@);
    let mut text = String::new();
    let mut mapping: Vec<String> = Vec::new();
    let mut i: usize = 0;
    assert(ps.take(0) =~= seq![]);
    while i < paths.len()
        invariant
            i <= paths.len(),
            ps == string_views(paths@),
            text@ == batch_text(source.model(), ps.take(i as int)),
            string_views(mapping@) == batch_paths(source.model(), ps.take(i as int)),
        decreases paths.len() - i,
    {
        let ghost before = mapping@;
        assert(ps.take(i + 1).drop_last() =~= ps.take(i as int));
        assert(ps.take(i + 1).last() == paths@[i as int]@);
        match get_nested_value(source, paths[i].as_str()) {
            Some(JsonValue::Str(t)) => {
                push_text(&mut text, paths[i].as_str());
                push_text(&mut text, "||");
                push_text(&mut text, t.as_str());
                push_char(&mut text, '\n');
                mapping.push(paths[i].clone());
                assert(string_views(mapping@) =~= string_views(before) + seq![paths@[i as int]@]);
                proof {
                    reveal_strlit("||");
                }
            },
            _ => {},
        }
        i += 1;
    }
    assert(ps.take(i as int) =~= ps);
    (text, mapping)
}

/// The opening of a translation request, before the language name.
pub open spec fn prompt_head() -> Seq<char> {
    "Translate the following key-value pairs to "@
}

/// The instructions of a translation request, between the language name and
/// the request lines.
pub open spec fn prompt_rules() -> Seq<char> {
    ". Keep the exact format with || separator and preserve any HTML tags, placeholders like {appName}, {min}, {max}, etc. Only translate the text content, not the keys or placeholders:\n\n"@
}

/// The translation request for a batch: the request lines, asked to be
/// translated into the language named `language_name`.
pub fn translation_prompt(language_name: &str, batch_text: &str) -> (r: String)
    ensures
        r@ == prompt_head() + language_name@ + prompt_rules() + batch_text@,
{
    let mut r = String::new();
    push_text(&mut r, "Translate the following key-value pairs to ");
    push_text(&mut r, language_name);
    push_text(
        &mut r,
        ". Keep the exact format with || separator and preserve any HTML tags, placeholders like {appName}, {min}, {max}, etc. Only translate the text content, not the keys or placeholders:\n\n",
    );
    push_text(&mut r, batch_text);
    r
}

/// The address of the text-generation call for a model and an API key.
pub fn gemini_url(model: &str, api_key: &str) -> (r: String)
    ensures
        r@ == "https://generativelanguage.googleapis.com/v1beta/models/"@ + model@
            + ":generateContent?key="@ + api_key@,
{
    let mut r = String::new();
    push_text(&mut r, "https://generativelanguage.googleapis.com/v1beta/models/");
    push_text(&mut r, model);
    push_text(&mut r, ":generateContent?key=");
    push_text(&mut r, api_key);
    r
}

/// Setting each translation in turn, stopping at the first path that cannot
/// be set: the document and whether all were set.
pub open spec fn apply_all(v: JsonView, ts: Seq<(Seq<char>, Seq<char>)>) -> (JsonView, bool)
    decreases ts.len(),
{
    if ts.len() == 0 {
        (v, true)
    } else {
        let (v1, ok) = apply_all(v, ts.drop_last());
        if !ok {
            (v1, false)
        } else {
            set_path(v1, path_keys(ts.last().0), JsonView::Str(ts.last().1))
        }
    }
}

/// Sets each translation (path, text) in the language document, in order;
/// the number set, or the error of the first that could not be set.
pub fn apply_translations(existing: &mut JsonValue, translations: &Vec<(String, String)>) -> (r:
    Result<usize, SetPathError>)
    ensures
        final(existing).model() == apply_all(old(existing).model(), pair_views(translations@)).0,
        r is Ok == apply_all(old(existing).model(), pair_views(translations@)).1,
        r matches Ok(n) ==> n == translations.len(),
{
    let ghost ts = pair_views(translations@);
    let ghost start = existing.model();
    let mut i: usize = 0;
    assert(ts.take(0) =~= seq![]);
    while i < translations.len()
        invariant
            i <= translations.len(),
            ts == pair_views(translations@),
            start == old(existing).model(),
            apply_all(start, ts.take(i as int)) == (existing.model(), true),
        decreases translations.len() - i,
    {
        assert(ts.take(i + 1).drop_last() =~= ts.take(i as int));
        assert(ts.take(i + 1).last() == (translations@[i as int].0@, translations@[i as int].1@));
        let value = JsonValue::Str(translations[i].1.clone());
        assert(value.model() == JsonView::Str(ts.take(i + 1).last().1));
        let ghost before = existing.model();
        match set_nested_value(existing, translations[i].0.as_str(), value) {
            Ok(()) => {},
            Err(e) => {
                assert(apply_all(start, ts.take(i + 1)) == set_path(
                    before,
                    path_keys(ts.take(i + 1).last().0),
                    JsonView::Str(ts.take(i + 1).last().1),
                ));
                proof {
                    lemma_apply_all_stops(start, ts, i + 1);
                }
                return Err(e);
            },
        }
        i += 1;
    }
    assert(ts.take(i as int) =~= ts);
    Ok(i)
}

/// Once setting fails, the later translations change nothing.
proof fn lemma_apply_all_stops(v: JsonView, ts: Seq<(Seq<char>, Seq<char>)>, k: int)
    requires
        0 < k <= ts.len(),
        !apply_all(v, ts.take(k)).1,
    ensures
        apply_all(v, ts) == apply_all(v, ts.take(k)),
    decreases ts.len() - k,
{
    if k < ts.len() {
        assert(ts.take(k + 1).drop_last() =~= ts.take(k));
        lemma_apply_all_stops(v, ts, k + 1);
    } else {
        assert(ts.take(k) =~= ts);
    }
}

// ---------------------------------------------------------------------------
// Languages
// ---------------------------------------------------------------------------

/// A language to translate into: its code, English name and flag.
#[derive(Debug)]
pub struct Language {
    pub code: String,
    pub name: String,
    pub flag: String,
}

/// The English name and flag of a known language code.
pub open spec fn known_language(code: Seq<char>) -> Option<(Seq<char>, Seq<char>)> {
    if code == "tr"@ {
        Some(("Turkish"@, "🇹🇷"@))
    } else if code == "en"@ {
        Some(("English"@, "🇺🇸"@))
    } else if code == "es"@ {
        Some(("Spanish"@, "🇪🇸"@))
    } else if code == "fr"@ {
        Some(("French"@, "🇫🇷"@))
    } else if code == "de"@ {
        Some(("German"@, "🇩🇪"@))
    } else if code == "it"@ {
        Some(("Italian"@, "🇮🇹"@))
    } else if code == "pt"@ {
        Some(("Portuguese"@, "🇵🇹"@))
    } else if code == "ru"@ {
        Some(("Russian"@, "🇷🇺"@))
    } else if code == "ja"@ {
        Some(("Japanese"@, "🇯🇵"@))
    } else if code == "ko"@ {
        Some(("Korean"@, "🇰🇷"@))
    } else if code == "zh"@ {
        Some(("Chinese"@, "🇨🇳"@))
    } else if code == "ar"@ {
        Some(("Arabic"@, "🇸🇦"@))
    } else if code == "hi"@ {
        Some(("Hindi"@, "🇮🇳"@))
    } else if code == "nl"@ {
        Some(("Dutch"@, "🇳🇱"@))
    } else if code == "sv"@ {
        Some(("Swedish"@, "🇸🇪"@))
    } else if code == "no"@ {
        Some(("Norwegian"@, "🇳🇴"@))
    } else if code == "da"@ {
        Some(("Danish"@, "🇩🇰"@))
    } else if code == "fi"@ {
        Some(("Finnish"@, "🇫🇮"@))
    } else if code == "pl"@ {
        Some(("Polish"@, "🇵🇱"@))
    } else if code == "cs"@ {
        Some(("Czech"@, "🇨🇿"@))
    } else if code == "hu"@ {
        Some(("Hungarian"@, "🇭🇺"@))
    } else if code == "ro"@ {
        Some(("Romanian"@, "🇷🇴"@))
    } else if code == "bg"@ {
        Some(("Bulgarian"@, "🇧🇬"@))
    } else if code == "hr"@ {
        Some(("Croatian"@, "🇭🇷"@))
    } else if code == "sk"@ {
        Some(("Slovak"@, "🇸🇰"@))
    } else if code == "sl"@ {
        Some(("Slovenian"@, "🇸🇮"@))
    } else if code == "et"@ {
        Some(("Estonian"@, "🇪🇪"@))
    } else if code == "lv"@ {
        Some(("Latvian"@, "🇱🇻"@))
    } else if code == "lt"@ {
        Some(("Lithuanian"@, "🇱🇹"@))
    } else if code == "uk"@ {
        Some(("Ukrainian"@, "🇺🇦"@))
    } else if code == "he"@ {
        Some(("Hebrew"@, "🇮🇱"@))
    } else if code == "th"@ {
        Some(("Thai"@, "🇹🇭"@))
    } else if code == "vi"@ {
        Some(("Vietnamese"@, "🇻🇳"@))
    } else if code == "id"@ {
        Some(("Indonesian"@, "🇮🇩"@))
    } else if code == "ms"@ {
        Some(("Malay"@, "🇲🇾"@))
    } else if code == "az"@ {
        Some(("Azerbaijani"@, "🇦🇿"@))
    } else if code == "bs"@ {
        Some(("Bosnian"@, "🇧🇦"@))
    } else if code == "ur"@ {
        Some(("Urdu"@, "🇵🇰"@))
    } else if code == "uz"@ {
        Some(("Uzbek"@, "🇺🇿"@))
    } else {
        None
    }
}

/// The name and flag of a language code: those of a known code, else the
/// code itself and a globe.
pub open spec fn language_info(code: Seq<char>) -> (Seq<char>, Seq<char>) {
    match known_language(code) {
        Some(info) => info,
        None => (code, "🌍"@),
    }
}

/// The language a code stands for.
pub open spec fn language_for(code: Seq<char>) -> (Seq<char>, Seq<char>, Seq<char>) {
    (code, language_info(code).0, language_info(code).1)
}

impl Language {
    /// The model of a language: code, name and flag.
    pub open spec fn model(&self) -> (Seq<char>, Seq<char>, Seq<char>) {
        (self.code@, self.name@, self.flag@)
    }

    /// A language with the given code, name and flag.
    pub fn new(code: &str, name: &str, flag: &str) -> (r: Self)
        ensures
            r.model() == (code@, name@, flag@),
    {
        Language { code: copy_text(code), name: copy_text(name), flag: copy_text(flag) }
    }

    /// The language for a code: the known name and flag, else the code as
    /// its name and a globe as its flag.
    pub fn from_code(code: &str) -> (r: Self)
        ensures
            r.model() == language_for(code@),
    {
        match known_language_exec(code) {
            Some((name, flag)) => Language::new(code, name, flag),
            None => Language::new(code, code, "🌍"),
        }
    }
}

/// The English name and flag of a known language code.
fn known_language_exec(code: &str) -> (r: Option<(&'static str, &'static str)>)
    ensures
        match r {
            Some((n, f)) => known_language(code@) == Some((n@, f@)),
            None => known_language(code@) is None,
        },
{
    if text_eq(code, "tr") {
        Some(("Turkish", "🇹🇷"))
    } else if text_eq(code, "en") {
        Some(("English", "🇺🇸"))
    } else if text_eq(code, "es") {
        Some(("Spanish", "🇪🇸"))
    } else if text_eq(code, "fr") {
        Some(("French", "🇫🇷"))
    } else if text_eq(code, "de") {
        Some(("German", "🇩🇪"))
    } else if text_eq(code, "it") {
        Some(("Italian", "🇮🇹"))
    } else if text_eq(code, "pt") {
        Some(("Portuguese", "🇵🇹"))
    } else if text_eq(code, "ru") {
        Some(("Russian", "🇷🇺"))
    } else if text_eq(code, "ja") {
        Some(("Japanese", "🇯🇵"))
    } else if text_eq(code, "ko") {
        Some(("Korean", "🇰🇷"))
    } else if text_eq(code, "zh") {
        Some(("Chinese", "🇨🇳"))
    } else if text_eq(code, "ar") {
        Some(("Arabic", "🇸🇦"))
    } else if text_eq(code, "hi") {
        Some(("Hindi", "🇮🇳"))
    } else if text_eq(code, "nl") {
        Some(("Dutch", "🇳🇱"))
    } else if text_eq(code, "sv") {
        Some(("Swedish", "🇸🇪"))
    } else if text_eq(code, "no") {
        Some(("Norwegian", "🇳🇴"))
    } else if text_eq(code, "da") {
        Some(("Danish", "🇩🇰"))
    } else if text_eq(code, "fi") {
        Some(("Finnish", "🇫🇮"))
    } else if text_eq(code, "pl") {
        Some(("Polish", "🇵🇱"))
    } else if text_eq(code, "cs") {
        Some(("Czech", "🇨🇿"))
    } else if text_eq(code, "hu") {
        Some(("Hungarian", "🇭🇺"))
    } else if text_eq(code, "ro") {
        Some(("Romanian", "🇷🇴"))
    } else if text_eq(code, "bg") {
        Some(("Bulgarian", "🇧🇬"))
    } else if text_eq(code, "hr") {
        Some(("Croatian", "🇭🇷"))
    } else if text_eq(code, "sk") {
        Some(("Slovak", "🇸🇰"))
    } else if text_eq(code, "sl") {
        Some(("Slovenian", "🇸🇮"))
    } else if text_eq(code, "et") {
        Some(("Estonian", "🇪🇪"))
    } else if text_eq(code, "lv") {
        Some(("Latvian", "🇱🇻"))
    } else if text_eq(code, "lt") {
        Some(("Lithuanian", "🇱🇹"))
    } else if text_eq(code, "uk") {
        Some(("Ukrainian", "🇺🇦"))
    } else if text_eq(code, "he") {
        Some(("Hebrew", "🇮🇱"))
    } else if text_eq(code, "th") {
        Some(("Thai", "🇹🇭"))
    } else if text_eq(code, "vi") {
        Some(("Vietnamese", "🇻🇳"))
    } else if text_eq(code, "id") {
        Some(("Indonesian", "🇮🇩"))
    } else if text_eq(code, "ms") {
        Some(("Malay", "🇲🇾"))
    } else if text_eq(code, "az") {
        Some(("Azerbaijani", "🇦🇿"))
    } else if text_eq(code, "bs") {
        Some(("Bosnian", "🇧🇦"))
    } else if text_eq(code, "ur") {
        Some(("Urdu", "🇵🇰"))
    } else if text_eq(code, "uz") {
        Some(("Uzbek", "🇺🇿"))
    } else {
        None
    }
}

/// A file name is that of a JSON file: it has the extension `json`
/// (`Path::extension`), so it ends with `.json` after at least one character.
pub open spec fn is_json_file(name: Seq<char>) -> bool {
    crate::text::ends_with(name, ".json"@) && name.len() >= 6
}

/// The language codes of the JSON files among `names` other than the source
/// file, in the order of `names`.
pub open spec fn file_language_codes(names: Seq<Seq<char>>, source_file: Seq<char>) -> Seq<
    Seq<char>,
>
    decreases names.len(),
{
    if names.len() == 0 {
        seq![]
    } else {
        let n = names.last();
        file_language_codes(names.drop_last(), source_file) + if is_json_file(n) && n
            != source_file {
            seq![n.take(n.len() - 5)]
        } else {
            seq![]
        }
    }
}

/// The codes of a sequence of languages.
pub open spec fn language_codes(v: Seq<Language>) -> Seq<Seq<char>> {
    v.map_values(|l: Language| l.code@)
}

/// The languages of the translation files named `names` (the JSON files
/// other than `source_file`, `xx.json` giving code `xx`), sorted by code.
pub fn languages_from_file_names(names: &Vec<String>, source_file: &str) -> (r: Vec<Language>)
    ensures
        crate::text::lex_sorted(language_codes(r@)),
        language_codes(r@).to_multiset() == file_language_codes(
            string_views(names@),
            source_file@,
        ).to_multiset(),
        forall|i: int| 0 <= i < r@.len() ==> #[trigger] r@[i].model() == language_for(r@[i].code@),
{
    let ghost ns = string_views(names@);
    let suffix = chars_of(".json");
    let source = chars_of(source_file);
    let mut codes: Vec<Vec<char>> = Vec::new();
    let mut i: usize = 0;
    assert(ns.take(0) =~= seq![]);
    while i < names.len()
        invariant
            i <= names.len(),
            ns == string_views(names@),
            suffix@ == ".json"@,
            source@ == source_file@,
            views(codes@) == file_language_codes(ns.take(i as int), source_file@),
        decreases names.len() - i,
    {
        let ghost before = codes@;
        assert(ns.take(i + 1).drop_last() =~= ns.take(i as int));
        assert(ns.take(i + 1).last() == names@[i as int]@);
        let name = chars_of(names[i].as_str());
        if crate::text::ends_with_exec(&name, &suffix) && name.len() >= 6 && !crate::text::chars_eq(
            &name,
            &source,
        ) {
            let code = slice_chars(&name, 0, name.len() - 5);
            assert(code@ =~= name@.take(name@.len() - 5));
            codes.push(code);
            assert(views(codes@) =~= views(before) + seq![name@.take(name@.len() - 5)]);
        }
        i += 1;
    }
    assert(ns.take(i as int) =~= ns);
    let sorted = crate::text::sort_texts(codes);
    let mut r: Vec<Language> = Vec::new();
    let mut j: usize = 0;
    while j < sorted.len()
        invariant
            j <= sorted.len(),
            r@.len() == j,
            forall|k: int| 0 <= k < j ==> #[trigger] r@[k].code@ == views(sorted@)[k],
            forall|k: int| 0 <= k < j ==> #[trigger] r@[k].model() == language_for(r@[k].code@),
        decreases sorted.len() - j,
    {
        let code = string_of(&sorted[j]);
        r.push(Language::from_code(code.as_str()));
        j += 1;
    }
    assert(language_codes(r@) =~= views(sorted@));
    r
}

/// The languages translated into when no language file exists yet:
/// Turkish, Spanish, French, German and Italian.
pub open spec fn default_language_codes() -> Seq<Seq<char>> {
    seq!["tr"@, "es"@, "fr"@, "de"@, "it"@]
}

/// The languages translated into when no language file exists yet.
pub fn default_languages() -> (r: Vec<Language>)
    ensures
        language_codes(r@) == default_language_codes(),
        forall|i: int| 0 <= i < r@.len() ==> #[trigger] r@[i].model() == language_for(r@[i].code@),
{
    let mut r: Vec<Language> = Vec::new();
    r.push(Language::from_code("tr"));
    r.push(Language::from_code("es"));
    r.push(Language::from_code("fr"));
    r.push(Language::from_code("de"));
    r.push(Language::from_code("it"));
    assert(language_codes(r@) =~= default_language_codes());
    r
}

/// The codes that an answer such as `ja, ko,zh` adds to `existing`: the
/// comma-separated, trimmed codes of the trimmed answer, each one that is
/// not empty and not yet present, in order.
pub open spec fn added_codes(existing: Seq<Seq<char>>, codes: Seq<Seq<char>>) -> Seq<Seq<char>>
    decreases codes.len(),
{
    if codes.len() == 0 {
        seq![]
    } else {
        let before = added_codes(existing, codes.drop_last());
        let c = trim(codes.last());
        before + if c.len() > 0 && !(existing + before).contains(c) {
            seq![c]
        } else {
            seq![]
        }
    }
}

/// The languages after adding those of a comma-separated answer: the
/// existing ones, then each new code of the answer.
pub fn add_languages(existing: Vec<Language>, answer: &str) -> (r: Vec<Language>)
    ensures
        language_codes(r@) == language_codes(existing@) + added_codes(
            language_codes(existing@),
            crate::text::split(trim(answer@), seq![',']),
        ),
        forall|i: int|
            0 <= i < existing@.len() ==> #[trigger] r@[i].model() == existing@[i].model(),
        forall|i: int|
            existing@.len() <= i < r@.len() ==> #[trigger] r@[i].model() == language_for(
                r@[i].code@,
            ),
{
    let comma: Vec<char> = vec![','];
    assert(comma@ =~= seq![',']);
    let pieces = crate::text::split_exec(&trim_text_vec(answer), &comma);
    let ghost ps = views(pieces@);
    let ghost ex = language_codes(existing@);
    let ghost old_existing = existing@;
    let mut all = existing;
    let mut k: usize = 0;
    assert(ps.take(0) =~= seq![]);
    assert(language_codes(all@) =~= ex + added_codes(ex, ps.take(0)));
    while k < pieces.len()
        invariant
            k <= pieces.len(),
            ps == views(pieces@),
            ps == crate::text::split(trim(answer@), seq![',']),
            all@.len() >= old_existing.len(),
            ex == language_codes(old_existing),
            language_codes(all@) == ex + added_codes(ex, ps.take(k as int)),
            forall|i: int|
                0 <= i < old_existing.len() ==> #[trigger] all@[i].model()
                    == old_existing[i].model(),
            forall|i: int|
                old_existing.len() <= i < all@.len() ==> #[trigger] all@[i].model()
                    == language_for(all@[i].code@),
        decreases pieces.len() - k,
    {
        assert(ps.take(k + 1).drop_last() =~= ps.take(k as int));
        assert(ps.take(k + 1).last() == pieces@[k as int]@);
        let code = trim_exec(&pieces[k]);
        let ghost before = all@;
        if code.len() > 0 && !has_language(&all, &code) {
            let c = string_of(&code);
            all.push(Language::from_code(c.as_str()));
            assert(language_codes(all@) =~= language_codes(before) + seq![code@]);
        }
        k += 1;
    }
    assert(ps.take(k as int) =~= ps);
    all
}

/// Whether one of the languages has the code `code`.
fn has_language(v: &Vec<Language>, code: &Vec<char>) -> (r: bool)
    ensures
        r == language_codes(v@).contains(code@),
{
    let mut i: usize = 0;
    while i < v.len()
        invariant
            i <= v.len(),
            forall|j: int| 0 <= j < i ==> v@[j].code@ != code@,
        decreases v.len() - i,
    {
        if crate::text::chars_eq(&chars_of(v[i].code.as_str()), code) {
            assert(language_codes(v@)[i as int] == code@);
            return true;
        }
        i += 1;
    }
    assert forall|j: int| 0 <= j < language_codes(v@).len() implies language_codes(v@)[j]
        != code@ by {
        assert(language_codes(v@)[j] == v@[j].code@);
    }
    false
}

/// The trimmed characters of a string.
fn trim_text_vec(s: &str) -> (r: Vec<char>)
    ensures
        r@ == trim(s@),
{
    trim_exec(&chars_of(s))
}


/// The paths in consecutive batches of `n` (the last one may be shorter).
pub open spec fn chunks_of(s: Seq<Seq<char>>, n: nat) -> Seq<Seq<Seq<char>>>
    decreases s.len(),
{
    if s.len() == 0 || n == 0 {
        seq![]
    } else if s.len() <= n {
        seq![s]
    } else {
        seq![s.take(n as int)] + chunks_of(s.skip(n as int), n)
    }
}

/// The views of batches of strings.
pub open spec fn batch_views(v: Seq<Vec<String>>) -> Seq<Seq<Seq<char>>> {
    v.map_values(|b: Vec<String>| string_views(b@))
}

/// The paths in consecutive batches of `size`, as translation requests take
/// them.
pub fn path_chunks(paths: &Vec<String>, size: usize) -> (r: Vec<Vec<String>>)
    requires
        size > 0,
    ensures
        batch_views(r@) == chunks_of(string_views(paths@), size as nat),
{
    let ghost ps = string_views(paths@);
    let mut r: Vec<Vec<String>> = Vec::new();
    let mut i: usize = 0;
    assert(ps.skip(0) =~= ps);
    assert(batch_views(r@) + chunks_of(ps.skip(0), size as nat) =~= chunks_of(ps, size as nat));
    while i < paths.len()
        invariant
            i <= paths.len(),
            size > 0,
            ps == string_views(paths@),
            batch_views(r@) + chunks_of(ps.skip(i as int), size as nat) == chunks_of(ps, size as nat),
        decreases paths.len() - i,
    {
        let end = if paths.len() - i <= size { paths.len() } else { i + size };
        let mut chunk: Vec<String> = Vec::new();
        let mut j = i;
        while j < end
            invariant
                i <= j <= end <= paths.len(),
                ps == string_views(paths@),
                string_views(chunk@) == ps.subrange(i as int, j as int),
            decreases end - j,
        {
            let ghost before = string_views(chunk@);
            chunk.push(paths[j].clone());
            assert(string_views(chunk@) =~= before.push(paths@[j as int]@));
            assert(ps.subrange(i as int, j + 1) =~= ps.subrange(i as int, j as int).push(ps[j as int]));
            j += 1;
        }
        let ghost rest = ps.skip(i as int);
        let ghost before_r = batch_views(r@);
        r.push(chunk);
        assert(batch_views(r@) =~= before_r.push(ps.subrange(i as int, end as int)));
        if paths.len() - i <= size {
            assert(rest =~= ps.subrange(i as int, end as int));
            assert(chunks_of(rest, size as nat) == seq![rest]);
            assert(ps.skip(end as int) =~= Seq::<Seq<char>>::empty());
            assert(before_r.push(ps.subrange(i as int, end as int)) + chunks_of(ps.skip(end as int), size as nat) =~= before_r + chunks_of(rest, size as nat));
        } else {
            assert(rest.take(size as int) =~= ps.subrange(i as int, end as int));
            assert(rest.skip(size as int) =~= ps.skip(end as int));
            assert(before_r.push(ps.subrange(i as int, end as int)) + chunks_of(ps.skip(end as int), size as nat) =~= before_r + chunks_of(rest, size as nat));
        }
        i = end;
    }
    assert(ps.skip(i as int) =~= Seq::<Seq<char>>::empty());
    assert(batch_views(r@) + chunks_of(ps.skip(i as int), size as nat) =~= batch_views(r@));
    r
}

/// The file of a language's translations: `<code>.json`.
pub fn language_file_name(code: &str) -> (r: String)
    ensures
        r@ == code@ + ".json"@,
{
    let mut r = copy_text(code);
    push_text(&mut r, ".json");
    r
}

/// A path is reported missing exactly when it is one of the paths looked for
/// and the target has no value at it; the missing paths come in the order of
/// the paths looked for, each looked-for path at most as often as it occurs.
pub proof fn lemma_missing_paths_exact(target: JsonView, all: Seq<Seq<char>>, p: Seq<char>)
    ensures
        missing_paths(target, all).contains(p) <==> (all.contains(p) && get_path(
            target,
            path_keys(p),
        ) is None),
        missing_paths(target, all).len() <= all.len(),
    decreases all.len(),
{
    if all.len() > 0 {
        let init = all.drop_last();
        lemma_missing_paths_exact(target, init, p);
        let m0 = missing_paths(target, init);
        let tail = if get_path(target, path_keys(all.last())) is None {
            seq![all.last()]
        } else {
            Seq::<Seq<char>>::empty()
        };
        assert(missing_paths(target, all) == m0 + tail);
        if (m0 + tail).contains(p) {
            let k = choose|k: int| 0 <= k < (m0 + tail).len() && (m0 + tail)[k] == p;
            if k < m0.len() {
                assert(m0[k] == p);
                assert(m0.contains(p));
                let j = choose|j: int| 0 <= j < init.len() && init[j] == p;
                assert(all[j] == p);
            } else {
                assert(tail[k - m0.len()] == p);
                assert(all[all.len() - 1] == p);
            }
        }
        if all.contains(p) && get_path(target, path_keys(p)) is None {
            let j = choose|j: int| 0 <= j < all.len() && all[j] == p;
            if j < all.len() - 1 {
                assert(init[j] == p);
                assert(init.contains(p));
                let k = choose|k: int| 0 <= k < m0.len() && m0[k] == p;
                assert((m0 + tail)[k] == p);
            } else {
                assert(all.last() == p);
                assert((m0 + tail)[m0.len() as int] == p);
            }
        }
    }
}

} // verus!
