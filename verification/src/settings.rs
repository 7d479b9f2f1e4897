//! Settings of the translation tool: defaults, the rows they are stored as,
//! and the reading of answers to the setup questions.
use vstd::prelude::*;
use crate::text::{
    chars_of, chars_eq, copy_text, dec, dec_exec, parse_u64, parse_u64_exec, push_chars,
    push_text, starts_with, starts_with_exec, string_of, trim, trim_exec, ends_with,
    ends_with_exec, char_utf8_len, char_utf8_len_exec, utf8_len, digits_value, all_digits,
    unsigned_body, digit_char, is_digit, byte_prefix, is_boundary, trim_text, text_eq,
};

verus! {

/// Settings of the translation tool.
#[derive(Debug)]
pub struct AppConfig {
    pub gemini_api_key: Option<String>,
    pub gemini_model: String,
    pub translation_delay_seconds: u64,
    pub messages_dir: String,
    pub source_file: String,
}

/// The model of settings: API key, model, delay, messages directory, source
/// file.
pub struct ConfigModel {
    pub api_key: Option<Seq<char>>,
    pub model: Seq<char>,
    pub delay: u64,
    pub messages_dir: Seq<char>,
    pub source_file: Seq<char>,
}

impl AppConfig {
    /// The model of these settings.
    pub open spec fn model(&self) -> ConfigModel {
        ConfigModel {
            api_key: match self.gemini_api_key {
                Some(k) => Some(k@),
                None => None,
            },
            model: self.gemini_model@,
            delay: self.translation_delay_seconds,
            messages_dir: self.messages_dir@,
            source_file: self.source_file@,
        }
    }
}

/// The default settings: no API key, model `gemini-1.5-flash`, a delay of
/// two seconds, directory `messages`, source file `source.json`.
pub open spec fn default_model() -> ConfigModel {
    ConfigModel {
        api_key: None,
        model: "gemini-1.5-flash"@,
        delay: 2,
        messages_dir: "messages"@,
        source_file: "source.json"@,
    }
}

impl Default for AppConfig {
    fn default() -> (r: Self)
        ensures
            r.model() == default_model(),
    {
        AppConfig {
            gemini_api_key: None,
            gemini_model: copy_text("gemini-1.5-flash"),
            translation_delay_seconds: 2,
            messages_dir: copy_text("messages"),
            source_file: copy_text("source.json"),
        }
    }
}

/// The settings after reading one stored row (key, value); unknown keys are
/// ignored, an empty API key means none, and a delay that is not a number
/// reads as two seconds.
pub open spec fn apply_row(c: ConfigModel, key: Seq<char>, value: Seq<char>) -> ConfigModel {
    if key == "gemini_api_key"@ {
        if value.len() > 0 {
            ConfigModel { api_key: Some(value), ..c }
        } else {
            c
        }
    } else if key == "gemini_model"@ {
        ConfigModel { model: value, ..c }
    } else if key == "translation_delay_seconds"@ {
        ConfigModel {
            delay: match parse_u64(value) {
                Some(d) => d,
                None => 2,
            },
            ..c
        }
    } else if key == "messages_dir"@ {
        ConfigModel { messages_dir: value, ..c }
    } else if key == "source_file"@ {
        ConfigModel { source_file: value, ..c }
    } else {
        c
    }
}

/// The settings after reading the rows in order.
pub open spec fn apply_rows(c: ConfigModel, rows: Seq<(Seq<char>, Seq<char>)>) -> ConfigModel
    decreases rows.len(),
{
    if rows.len() == 0 {
        c
    } else {
        let (k, v) = rows.last();
        apply_row(apply_rows(c, rows.drop_last()), k, v)
    }
}

/// The views of a sequence of string pairs.
pub open spec fn row_views(v: Seq<(String, String)>) -> Seq<(Seq<char>, Seq<char>)> {
    v.map_values(|p: (String, String)| (p.0@, p.1@))
}

/// The settings that stored rows give, starting from the defaults.
pub fn config_from_rows(rows: &Vec<(String, String)>) -> (r: AppConfig)
    ensures
        r.model() == apply_rows(default_model(), row_views(rows@)),
{
    let ghost rs = row_views(rows@);
    let mut c = AppConfig::default();
    let mut i: usize = 0;
    assert(rs.take(0) =~= seq![]);
    while i < rows.len()
        invariant
            i <= rows.len(),
            rs == row_views(rows@),
            c.model() == apply_rows(default_model(), rs.take(i as int)),
        decreases rows.len() - i,
    {
        assert(rs.take(i + 1).drop_last() =~= rs.take(i as int));
        assert(rs.take(i + 1).last() == (rows@[i as int].0@, rows@[i as int].1@));
        let key = rows[i].0.as_str();
        let value = rows[i].1.as_str();
        if crate::text::text_eq(key, "gemini_api_key") {
            if !value.is_empty() {
                c.gemini_api_key = Some(copy_text(value));
            }
        } else if crate::text::text_eq(key, "gemini_model") {
            c.gemini_model = copy_text(value);
        } else if crate::text::text_eq(key, "translation_delay_seconds") {
            c.translation_delay_seconds = match parse_u64_exec(&chars_of(value)) {
                Some(d) => d,
                None => 2,
            };
        } else if crate::text::text_eq(key, "messages_dir") {
            c.messages_dir = copy_text(value);
        } else if crate::text::text_eq(key, "source_file") {
            c.source_file = copy_text(value);
        }
        i += 1;
    }
    assert(rs.take(i as int) =~= rs);
    c
}

/// The rows that store settings: each key with its text (an absent API key
/// is stored empty, the delay in decimal).
pub open spec fn rows_of(c: ConfigModel) -> Seq<(Seq<char>, Seq<char>)> {
    seq![
        ("gemini_api_key"@, match c.api_key {
            Some(k) => k,
            None => seq![],
        }),
        ("gemini_model"@, c.model),
        ("translation_delay_seconds"@, dec(c.delay as nat)),
        ("messages_dir"@, c.messages_dir),
        ("source_file"@, c.source_file),
    ]
}

/// The rows that store the settings.
pub fn config_rows(config: &AppConfig) -> (r: Vec<(String, String)>)
    ensures
        row_views(r@) == rows_of(config.model()),
{
    let key = match &config.gemini_api_key {
        Some(k) => k.clone(),
        None => String::new(),
    };
    let mut r: Vec<(String, String)> = Vec::new();
    r.push((copy_text("gemini_api_key"), key));
    r.push((copy_text("gemini_model"), config.gemini_model.clone()));
    r.push((copy_text("translation_delay_seconds"), string_of(&dec_exec(config.translation_delay_seconds))));
    r.push((copy_text("messages_dir"), config.messages_dir.clone()));
    r.push((copy_text("source_file"), config.source_file.clone()));
    assert(row_views(r@) =~= rows_of(config.model()));
    r
}


/// The decimal text of a number reads back as that number.
pub proof fn lemma_parse_dec(n: u64)
    ensures
        parse_u64(dec(n as nat)) == Some(n),
{
    crate::text::lemma_dec_digits(n as nat);
    let d = dec(n as nat);
    assert(unsigned_body(d) == d) by {
        assert(is_digit(d[0]));
    }
}

/// Storing settings as rows and reading the rows back gives the same
/// settings, for settings whose API key, when present, is not empty (an
/// empty stored key reads as no key).
pub proof fn lemma_rows_round_trip(c: ConfigModel)
    requires
        c.api_key != Some(Seq::<char>::empty()),
    ensures
        apply_rows(default_model(), rows_of(c)) == c,
{
    reveal_strlit("gemini_api_key");
    reveal_strlit("gemini_model");
    reveal_strlit("translation_delay_seconds");
    reveal_strlit("messages_dir");
    reveal_strlit("source_file");
    lemma_parse_dec(c.delay);
    let rows = rows_of(c);
    let d0 = default_model();
    assert(rows.take(0) =~= seq![]);
    assert(rows.take(1).drop_last() =~= rows.take(0));
    assert(rows.take(1).last() == rows[0]);
    assert(rows.take(2).drop_last() =~= rows.take(1));
    assert(rows.take(2).last() == rows[1]);
    assert(rows.take(3).drop_last() =~= rows.take(2));
    assert(rows.take(3).last() == rows[2]);
    assert(rows.take(4).drop_last() =~= rows.take(3));
    assert(rows.take(4).last() == rows[3]);
    assert(rows.take(5).drop_last() =~= rows.take(4));
    assert(rows.take(5).last() == rows[4]);
    let c1 = apply_rows(d0, rows.take(1));
    let c2 = apply_rows(d0, rows.take(2));
    let c3 = apply_rows(d0, rows.take(3));
    let c4 = apply_rows(d0, rows.take(4));
    let c5 = apply_rows(d0, rows.take(5));
    assert(apply_rows(d0, rows.take(0)) == d0);
    assert(c1 == apply_row(d0, rows[0].0, rows[0].1));
    assert(rows[0].0 == "gemini_api_key"@);
    assert(d0.api_key is None);
    if c.api_key is Some {
        let k = c.api_key->0;
        if k.len() == 0 {
            assert(k =~= Seq::<char>::empty());
        }
        assert(k.len() > 0);
    }
    assert(c1.api_key == c.api_key);
    assert(c2 == apply_row(c1, rows[1].0, rows[1].1));
    assert(rows[1].0 == "gemini_model"@);
    assert("gemini_model"@.len() != "gemini_api_key"@.len());
    assert(c2.model == c.model && c2.api_key == c.api_key);
    assert(c3 == apply_row(c2, rows[2].0, rows[2].1));
    assert(rows[2].0 == "translation_delay_seconds"@);
    assert(rows[2].1 == dec(c.delay as nat));
    assert(c3.delay == c.delay && c3.model == c.model && c3.api_key == c.api_key);
    assert(c4 == apply_row(c3, rows[3].0, rows[3].1));
    assert(rows[3].0 == "messages_dir"@);
    assert("messages_dir"@.len() != "gemini_api_key"@.len());
    assert("messages_dir"@[0] != "gemini_model"@[0]);
    assert("messages_dir"@.len() != "translation_delay_seconds"@.len());
    assert(c4.messages_dir == c.messages_dir && c4.delay == c.delay);
    assert(c5 == apply_row(c4, rows[4].0, rows[4].1));
    assert(rows[4].0 == "source_file"@);
    assert("source_file"@ != "gemini_model"@);
    assert("source_file"@.len() != "gemini_api_key"@.len());
    assert("source_file"@.len() != "translation_delay_seconds"@.len());
    assert("source_file"@.len() != "messages_dir"@.len());
    assert(c5.source_file == c.source_file);
    assert(rows.take(5) =~= rows);
}

/// The API key as shown: its first eight bytes (all of a shorter key)
/// followed by `***`.
pub open spec fn masked_key(k: Seq<char>) -> Seq<char> {
    (if utf8_len(k) < 8 {
        k
    } else {
        byte_prefix(k, 8)
    }) + "***"@
}

/// The API key as shown: its first eight bytes followed by `***`.
pub fn mask_api_key(key: &str) -> (r: String)
    requires
        utf8_len(key@) < 8 || is_boundary(key@, 8),
    ensures
        r@ == masked_key(key@),
{
    let k = chars_of(key);
    let n = crate::release_notes::utf8_len_exec(&k);
    let mut r = String::new();
    if n < 8 {
        push_text(&mut r, key);
    } else {
        push_chars(&mut r, &crate::text::byte_prefix_exec(&k, 8));
    }
    push_text(&mut r, "***");
    r
}


/// The API key from the environment: its value when set and not empty.
pub fn env_api_key(env_value: Option<&str>) -> (r: Option<String>)
    ensures
        match env_value {
            Some(v) => if v@.len() > 0 {
                r matches Some(k) && k@ == v@
            } else {
                r is None
            },
            None => r is None,
        },
{
    match env_value {
        Some(v) => if v.is_empty() {
            None
        } else {
            Some(copy_text(v))
        },
        None => None,
    }
}

/// A key can be shown masked (a shorter key, or one whose eighth byte ends
/// a character).
pub open spec fn maskable(k: Seq<char>) -> bool {
    utf8_len(k) < 8 || is_boundary(k, 8)
}

/// The question for the API key, showing the current key masked.
pub open spec fn api_key_question(current: Option<Seq<char>>) -> Seq<char> {
    match current {
        Some(k) => "Gemini API Key [current: "@ + masked_key(k) + "]: "@,
        None => "Gemini API Key (required): "@,
    }
}

/// The view of an optional string slice.
pub open spec fn opt_str(o: Option<&str>) -> Option<Seq<char>> {
    match o {
        Some(s) => Some(s@),
        None => None,
    }
}

/// The question for the API key.
pub fn api_key_prompt(current: Option<&str>) -> (r: String)
    requires
        current matches Some(k) ==> maskable(k@),
    ensures
        r@ == api_key_question(opt_str(current)),
{
    match current {
        Some(k) => {
            let mut r = copy_text("Gemini API Key [current: ");
            let m = mask_api_key(k);
            push_text(&mut r, m.as_str());
            push_text(&mut r, "]: ");
            r
        },
        None => copy_text("Gemini API Key (required): "),
    }
}

/// The API key after the answer to its question: the trimmed answer, or the
/// current key (possibly none) when the answer is blank.
pub fn api_key_from_answer(current: Option<&str>, answer: &str) -> (r: Option<String>)
    ensures
        trim(answer@).len() > 0 ==> (r matches Some(k) && k@ == trim(answer@)),
        trim(answer@).len() == 0 ==> match current {
            Some(c) => r matches Some(k) && k@ == c@,
            None => r is None,
        },
{
    let t = trim_text(answer);
    if t.len() > 0 {
        Some(string_of(&t))
    } else {
        match current {
            Some(c) => Some(copy_text(c)),
            None => None,
        }
    }
}

/// The model after the answer to its question: `1` is Gemini 1.5 Flash,
/// `2` Gemini 1.5 Pro, a name starting with `gemini` is taken as it is;
/// a blank answer keeps the current model, and anything else keeps it with a
/// warning (the flag).
pub open spec fn model_choice(current: Seq<char>, answer: Seq<char>) -> (Seq<char>, bool) {
    let a = trim(answer);
    if a.len() == 0 {
        (current, true)
    } else if a == "1"@ {
        ("gemini-1.5-flash"@, true)
    } else if a == "2"@ {
        ("gemini-1.5-pro"@, true)
    } else if starts_with(a, "gemini"@) {
        (a, true)
    } else {
        (current, false)
    }
}

/// The model after the answer to its question, and whether the answer was
/// acceptable.
pub fn model_from_answer(current: &str, answer: &str) -> (r: (String, bool))
    ensures
        (r.0@, r.1) == model_choice(current@, answer@),
{
    let t = trim_text(answer);
    let a = string_of(&t);
    if t.len() == 0 {
        (copy_text(current), true)
    } else if text_eq(a.as_str(), "1") {
        (copy_text("gemini-1.5-flash"), true)
    } else if text_eq(a.as_str(), "2") {
        (copy_text("gemini-1.5-pro"), true)
    } else if starts_with_exec(&t, &chars_of("gemini")) {
        (a, true)
    } else {
        (copy_text(current), false)
    }
}

/// What became of an answer for the delay.
#[derive(Debug, Clone, Copy, PartialEq, Eq, Structural)]
pub enum DelayAnswer {
    /// Blank: the current delay is kept.
    Kept,
    /// A number of at most sixty seconds: taken.
    Accepted,
    /// A number above sixty: the current delay is kept.
    TooHigh,
    /// Not a number: the current delay is kept.
    Invalid,
}

/// The delay after the answer to its question, with what became of the
/// answer.
pub open spec fn delay_choice(current: u64, answer: Seq<char>) -> (u64, DelayAnswer) {
    let a = trim(answer);
    if a.len() == 0 {
        (current, DelayAnswer::Kept)
    } else {
        match parse_u64(a) {
            Some(d) => if d <= 60 {
                (d, DelayAnswer::Accepted)
            } else {
                (current, DelayAnswer::TooHigh)
            },
            None => (current, DelayAnswer::Invalid),
        }
    }
}

/// The delay between API calls after the answer to its question.
pub fn delay_from_answer(current: u64, answer: &str) -> (r: (u64, DelayAnswer))
    ensures
        r == delay_choice(current, answer@),
{
    let t = trim_text(answer);
    if t.len() == 0 {
        return (current, DelayAnswer::Kept);
    }
    match parse_u64_exec(&t) {
        Some(d) => if d <= 60 {
            (d, DelayAnswer::Accepted)
        } else {
            (current, DelayAnswer::TooHigh)
        },
        None => (current, DelayAnswer::Invalid),
    }
}

/// A text setting after the answer to its question: the trimmed answer, or
/// the current value when the answer is blank.
pub fn text_from_answer(current: &str, answer: &str) -> (r: String)
    ensures
        r@ == if trim(answer@).len() == 0 {
            current@
        } else {
            trim(answer@)
        },
{
    let t = trim_text(answer);
    if t.len() == 0 {
        copy_text(current)
    } else {
        string_of(&t)
    }
}

/// Whether a source file name lacks the `.json` extension (a warning is
/// shown).
pub fn lacks_json_extension(name: &str) -> (r: bool)
    ensures
        r == !ends_with(name@, ".json"@),
{
    !ends_with_exec(&chars_of(name), &chars_of(".json"))
}

/// How the API key is shown: masked, or `Not set`.
pub fn api_key_display(key: Option<&str>) -> (r: String)
    requires
        key matches Some(k) ==> maskable(k@),
    ensures
        r@ == match key {
            Some(k) => masked_key(k@),
            None => "Not set"@,
        },
{
    match key {
        Some(k) => mask_api_key(k),
        None => copy_text("Not set"),
    }
}

/// Settings of a translation run.
#[derive(Debug)]
pub struct TranslationConfig {
    pub api_key: String,
    pub model: String,
    pub delay_seconds: u64,
    pub messages_dir: String,
    pub source_file: String,
}

impl TranslationConfig {
    /// The settings of a translation run from the tool's settings (no key
    /// gives an empty key).
    pub fn from_app_config(app_config: AppConfig) -> (r: Self)
        ensures
            r.api_key@ == match app_config.gemini_api_key {
                Some(k) => k@,
                None => Seq::<char>::empty(),
            },
            r.model@ == app_config.gemini_model@,
            r.delay_seconds == app_config.translation_delay_seconds,
            r.messages_dir@ == app_config.messages_dir@,
            r.source_file@ == app_config.source_file@,
    {
        TranslationConfig {
            api_key: match app_config.gemini_api_key {
                Some(k) => k,
                None => String::new(),
            },
            model: app_config.gemini_model,
            delay_seconds: app_config.translation_delay_seconds,
            messages_dir: app_config.messages_dir,
            source_file: app_config.source_file,
        }
    }
}

/// Whether a translation run can start: only with an API key.
pub fn can_translate(config: &AppConfig) -> (r: bool)
    ensures
        r == config.gemini_api_key is Some,
{
    config.gemini_api_key.is_some()
}

/// The delay chosen by an answer is the current one or at most sixty seconds,
/// and a blank answer keeps the current one.
pub proof fn lemma_delay_bounded(current: u64, answer: Seq<char>)
    ensures
        delay_choice(current, answer).0 == current || delay_choice(current, answer).0 <= 60,
        trim(answer).len() == 0 ==> delay_choice(current, answer) == (current, DelayAnswer::Kept),
{
}

/// A key is shown as at most its first eight bytes, followed by `***`: the
/// shown part is a prefix of the key, and the whole key when it is shorter
/// than eight bytes.
pub proof fn lemma_masked_key_prefix(k: Seq<char>)
    ensures
        ({
            let p = masked_key(k).subrange(0, masked_key(k).len() - 3);
            &&& masked_key(k) == p + "***"@
            &&& p.len() <= k.len()
            &&& p == k.take(p.len() as int)
            &&& utf8_len(p) <= 8
            &&& utf8_len(k) < 8 ==> p == k
        }),
{
    reveal_strlit("***");
    let p = if utf8_len(k) < 8 {
        k
    } else {
        byte_prefix(k, 8)
    };
    if utf8_len(k) >= 8 {
        assert(k.take(0) =~= Seq::<char>::empty());
        assert(utf8_len(Seq::<char>::empty()) == 0);
        crate::text::lemma_prefix_end_fits(k, 8, 0);
    }
    assert(masked_key(k) == p + "***"@);
    assert(masked_key(k).subrange(0, masked_key(k).len() - 3) =~= p);
    assert(p =~= k.take(p.len() as int));
}

} // verus!
