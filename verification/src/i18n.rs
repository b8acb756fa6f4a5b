//! Bilingual (English / Chinese) message catalogue.
//!
//! Messages are written in Fluent syntax and rendered by the `fluent-bundle`
//! crate. Catalogue keys are dotted (`msg.unbound_variable`); Fluent
//! identifiers cannot hold dots, so a key is looked up with each `.` replaced
//! by `-`. An unknown key renders as the key itself; a key missing from the
//! Chinese catalogue falls back to the English one.

use vstd::prelude::*;
use crate::text::{chars_of, owned, string_from_chars};

verus! {

/// A supported language.
#[derive(Debug, Clone, Copy, PartialEq, Eq, Default, Structural)]
pub enum Lang {
    /// English, the fallback language.
    #[default]
    En,
    /// Chinese.
    Zh,
}

/// The language detected once per process: empty until the first request,
/// which runs the detection chain over the sources and keeps its answer;
/// every later request gives that answer again, whatever the sources then.
#[derive(Debug, Clone, Copy, PartialEq, Eq, Structural)]
pub struct DetectedLang {
    pub cached: Option<Lang>,
}

impl DetectedLang {
    /// Nothing detected yet.
    pub fn new() -> (r: Self)
        ensures
            r.cached is None,
    {
        DetectedLang { cached: None }
    }

    /// The detected language: the kept answer when there is one; otherwise
    /// the detection chain over `sources`, which is kept from then on.
    pub fn get(&mut self, sources: &Vec<Option<String>>) -> (l: Lang)
        ensures
            old(self).cached matches Some(k) ==> l == k && *final(self) == *old(self),
            old(self).cached is None ==> l == spec_detect(option_views(sources@)),
            final(self).cached == Some(l),
    {
        match self.cached {
            Some(k) => k,
            None => {
                let l = detect_from(sources);
                self.cached = Some(l);
                l
            },
        }
    }
}



/// A message lookup context: the current language.
#[derive(Debug, Clone)]
pub struct I18n {
    lang: Lang,
}

impl View for I18n {
    type V = Lang;

    /// The current language.
    closed spec fn view(&self) -> Lang {
        self.lang
    }
}

// ----------------------------------------------------------------------------
// Language tags
// ----------------------------------------------------------------------------

/// The part of `s` before the first occurrence of `c` (all of `s` if none).
pub open spec fn prefix_before(s: Seq<char>, c: char) -> Seq<char>
    decreases s.len(),
{
    if s.len() == 0 {
        s
    } else if s[0] == c {
        Seq::empty()
    } else {
        seq![s[0]] + prefix_before(s.drop_first(), c)
    }
}

proof fn lemma_prefix_before(s: Seq<char>, c: char, i: int)
    requires
        0 <= i <= s.len(),
        forall|k: int| 0 <= k < i ==> s[k] != c,
        i == s.len() || s[i] == c,
    ensures
        prefix_before(s, c) == s.take(i),
    decreases i,
{
    if i == 0 {
        assert(s.take(0) =~= Seq::<char>::empty());
        if s.len() == 0 {
            assert(s =~= Seq::<char>::empty());
        }
    } else {
        lemma_prefix_before(s.drop_first(), c, i - 1);
        assert(seq![s[0]] + s.drop_first().take(i - 1) =~= s.take(i));
    }
}

/// The characters of `s` up to (not including) the first `c`.
fn chars_before(s: &Vec<char>, c: char) -> (r: Vec<char>)
    ensures
        r@ == prefix_before(s@, c),
{
    let mut r: Vec<char> = Vec::new();
    let mut i: usize = 0;
    while i < s.len() && s[i] != c
        invariant
            i <= s@.len(),
            r@ == s@.take(i as int),
            forall|k: int| 0 <= k < i ==> s@[k] != c,
        decreases s@.len() - i,
    {
        r.push(s[i]);
        i = i + 1;
        assert(r@ =~= s@.take(i as int));
    }
    proof {
        lemma_prefix_before(s@, c, i as int);
    }
    r
}

/// `p` is the language subtag `zh`, in any letter case.
pub open spec fn is_zh_subtag(p: Seq<char>) -> bool {
    p.len() == 2 && (p[0] == 'z' || p[0] == 'Z') && (p[1] == 'h' || p[1] == 'H')
}

/// `p` is the language subtag `en`, in any letter case.
pub open spec fn is_en_subtag(p: Seq<char>) -> bool {
    p.len() == 2 && (p[0] == 'e' || p[0] == 'E') && (p[1] == 'n' || p[1] == 'N')
}

fn chars_is_zh(p: &Vec<char>) -> (r: bool)
    ensures
        r == is_zh_subtag(p@),
{
    p.len() == 2 && (p[0] == 'z' || p[0] == 'Z') && (p[1] == 'h' || p[1] == 'H')
}

fn chars_is_en(p: &Vec<char>) -> (r: bool)
    ensures
        r == is_en_subtag(p@),
{
    p.len() == 2 && (p[0] == 'e' || p[0] == 'E') && (p[1] == 'n' || p[1] == 'N')
}

/// The language a BCP-47 tag asks for: Chinese when its primary subtag (the
/// part before the first `-`) is `zh` in any case, English otherwise.
pub open spec fn spec_parse_lang(s: Seq<char>) -> Lang {
    if is_zh_subtag(prefix_before(s, '-')) { Lang::Zh } else { Lang::En }
}

/// Parses a BCP-47 language tag: `zh`, `zh-CN`, `zh-Hant-TW`, `ZH-hans`, ...
/// give Chinese; any other tag (including `zhongwen`) gives English.
pub fn parse_lang_simple(s: &str) -> (l: Lang)
    ensures
        l == spec_parse_lang(s@),
{
    let cs = chars_of(s);
    let primary = chars_before(&cs, '-');
    if chars_is_zh(&primary) { Lang::Zh } else { Lang::En }
}

/// Whether a character has the Unicode `White_Space` property, which is
/// what `char::is_whitespace` of std tests: tab to carriage return, space,
/// next line, no-break space, ogham space mark, the spaces from en quad to
/// hair space, the line and paragraph separators, the narrow no-break and
/// medium mathematical spaces, and the ideographic space.
pub open spec fn char_whitespace(c: char) -> bool {
    let u = c as u32;
    ||| 0x9 <= u <= 0xD
    ||| u == 0x20 || u == 0x85 || u == 0xA0 || u == 0x1680
    ||| 0x2000 <= u <= 0x200A
    ||| u == 0x2028 || u == 0x2029 || u == 0x202F || u == 0x205F || u == 0x3000
}

/// `char::is_whitespace`: whether the character has the Unicode
/// `White_Space` property.
fn is_whitespace(c: char) -> (r: bool)
    ensures
        r == char_whitespace(c),
{
    let u = c as u32;
    (0x9 <= u && u <= 0xD) || u == 0x20 || u == 0x85 || u == 0xA0 || u == 0x1680
        || (0x2000 <= u && u <= 0x200A)
        || u == 0x2028 || u == 0x2029 || u == 0x202F || u == 0x205F || u == 0x3000
}

/// `s` without leading whitespace.
pub open spec fn trim_start(s: Seq<char>) -> Seq<char>
    decreases s.len(),
{
    if s.len() > 0 && char_whitespace(s[0]) { trim_start(s.drop_first()) } else { s }
}

/// `s` without trailing whitespace.
pub open spec fn trim_end(s: Seq<char>) -> Seq<char>
    decreases s.len(),
{
    if s.len() > 0 && char_whitespace(s.last()) { trim_end(s.drop_last()) } else { s }
}

/// `s` without leading and trailing whitespace.
pub open spec fn trim(s: Seq<char>) -> Seq<char> {
    trim_end(trim_start(s))
}

fn trim_chars(s: &Vec<char>) -> (r: Vec<char>)
    ensures
        r@ == trim(s@),
{
    let n = s.len();
    let mut a: usize = 0;
    assert(s@.skip(0) =~= s@);
    while a < n && is_whitespace(s[a])
        invariant
            n == s@.len(),
            a <= n,
            trim_start(s@) == trim_start(s@.skip(a as int)),
        decreases n - a,
    {
        assert(s@.skip(a as int).drop_first() =~= s@.skip(a + 1));
        a = a + 1;
    }
    let ghost mid = s@.skip(a as int);
    assert(trim_start(s@) == mid);
    let mut b: usize = n;
    while b > a && is_whitespace(s[b - 1])
        invariant
            n == s@.len(),
            a <= b <= n,
            mid == s@.skip(a as int),
            trim(s@) == trim_end(s@.subrange(a as int, b as int)),
        decreases b - a,
    {
        assert(s@.subrange(a as int, b as int).drop_last() =~= s@.subrange(a as int, b - 1));
        b = b - 1;
    }
    proof {
        assert(mid =~= s@.subrange(a as int, n as int));
    }
    let mut r: Vec<char> = Vec::new();
    let mut k: usize = a;
    while k < b
        invariant
            a <= k <= b,
            b <= s@.len(),
            r@ == s@.subrange(a as int, k as int),
        decreases b - k,
    {
        r.push(s[k]);
        k = k + 1;
        assert(r@ =~= s@.subrange(a as int, k as int));
    }
    r
}

/// Replaces every `_` by `-`.
pub open spec fn underscores_to_dashes(s: Seq<char>) -> Seq<char> {
    s.map_values(|c: char| if c == '_' { '-' } else { c })
}

/// The tag of a locale environment value: trimmed, without its `@modifier`
/// and `.codeset` parts, with `_` written as `-`.
pub open spec fn env_tag(raw: Seq<char>) -> Seq<char> {
    underscores_to_dashes(prefix_before(prefix_before(trim(raw), '@'), '.'))
}

/// The language a locale environment value (such as `zh_CN.UTF-8`) names:
/// none for an empty, `C` or `POSIX` value or for an unsupported language.
pub open spec fn spec_normalize_env_value(raw: Seq<char>) -> Option<Lang> {
    let tag = env_tag(raw);
    if tag.len() == 0 || tag == "C"@ || tag == "POSIX"@ {
        None
    } else if is_zh_subtag(prefix_before(tag, '-')) {
        Some(Lang::Zh)
    } else if is_en_subtag(prefix_before(tag, '-')) {
        Some(Lang::En)
    } else {
        None
    }
}

/// Reads a locale environment value (`zh_CN.UTF-8`, `en_US`, `C`, ...) as a
/// supported language, if it names one.
pub fn normalize_env_value(raw: &str) -> (r: Option<Lang>)
    ensures
        r == spec_normalize_env_value(raw@),
{
    let cs = chars_of(raw);
    let t = trim_chars(&cs);
    let no_modifier = chars_before(&t, '@');
    let no_codeset = chars_before(&no_modifier, '.');
    let mut tag: Vec<char> = Vec::new();
    let mut i: usize = 0;
    while i < no_codeset.len()
        invariant
            i <= no_codeset@.len(),
            tag@ == underscores_to_dashes(no_codeset@.take(i as int)),
        decreases no_codeset@.len() - i,
    {
        let c = no_codeset[i];
        tag.push(if c == '_' { '-' } else { c });
        i = i + 1;
        assert(tag@ =~= underscores_to_dashes(no_codeset@.take(i as int)));
    }
    assert(no_codeset@.take(i as int) =~= no_codeset@);
    let tag_str = string_from_chars(&tag);
    let is_c = crate::text::str_eq(tag_str.as_str(), "C");
    let is_posix = crate::text::str_eq(tag_str.as_str(), "POSIX");
    if tag.len() == 0 || is_c || is_posix {
        return None;
    }
    let primary = chars_before(&tag, '-');
    if chars_is_zh(&primary) {
        Some(Lang::Zh)
    } else if chars_is_en(&primary) {
        Some(Lang::En)
    } else {
        None
    }
}

/// The language of the first source that names a supported one; English
/// when none does.
pub open spec fn spec_detect(sources: Seq<Option<Seq<char>>>) -> Lang
    decreases sources.len(),
{
    if sources.len() == 0 {
        Lang::En
    } else {
        match sources[0] {
            Some(v) => match spec_normalize_env_value(v) {
                Some(l) => l,
                None => spec_detect(sources.drop_first()),
            },
            None => spec_detect(sources.drop_first()),
        }
    }
}

/// The views of a list of optional strings.
pub open spec fn option_views(v: Seq<Option<String>>) -> Seq<Option<Seq<char>>> {
    v.map_values(|o: Option<String>| match o { Some(s) => Some(s@), None => None })
}

/// The detection chain: the language of the first source (in order) whose
/// value names a supported language, English when none does. The sources
/// are, in order, the `CALNEXUS_LANG`, `LC_ALL`, `LC_MESSAGES` and `LANG`
/// environment values and the system locale; absent ones are `None`.
pub fn detect_from(sources: &Vec<Option<String>>) -> (l: Lang)
    ensures
        l == spec_detect(option_views(sources@)),
{
    let ghost sv = option_views(sources@);
    let mut i: usize = 0;
    assert(sv.skip(0) =~= sv);
    while i < sources.len()
        invariant
            sv == option_views(sources@),
            i <= sources@.len(),
            spec_detect(sv) == spec_detect(sv.skip(i as int)),
        decreases sources@.len() - i,
    {
        assert(sv.skip(i as int).drop_first() =~= sv.skip(i + 1));
        match &sources[i] {
            Some(v) => {
                if let Some(l) = normalize_env_value(v.as_str()) {
                    return l;
                }
            },
            None => {},
        }
        i = i + 1;
    }
    assert(sv.skip(i as int).len() == 0);
    Lang::En
}

// ----------------------------------------------------------------------------
// Catalogue
// ----------------------------------------------------------------------------

/// The English catalogue, in Fluent syntax.
pub open spec fn spec_en_catalog() -> Seq<char> {
    "error-parse = Parse error\nerror-eval = Evaluation error\nerror-overflow = Arithmetic overflow\nerror-division_by_zero = Division by zero\nerror-domain = Domain error\nerror-depth = Maximum recursion depth exceeded\nerror-nan_or_inf = Result is NaN or infinity\nerror-undefined_symbol = Undefined symbol\nerror-timeout = Evaluation timed out\nerror-usage = Usage error\nlabel-position = Position\nlabel-hint = Hint\nlabel-error_kind = Error Kind\nlabel-exit_code = Exit Code\nlabel-suggestion = Suggestion\nlabel-cached_suffix = { \" (cached)\" }\nmsg-unbound_variable = Unbound variable: { $name }\nmsg-unknown_function = Unknown function: { $name }\nmsg-matrix_dim_mismatch = Matrix dimension mismatch: expected { $expected }, got { $actual }\nmsg-function_arg_count = Function { $name } expects { $expected } args, got { $actual }\npanic-internal_error = calnexus: internal error (panic)\npanic-report_bug = calnexus: please report this bug with the backtrace above\n"@
}

/// The Chinese catalogue, in Fluent syntax.
pub open spec fn spec_zh_catalog() -> Seq<char> {
    "error-parse = 解析错误\nerror-eval = 求值错误\nerror-overflow = 算术溢出\nerror-division_by_zero = 除以零\nerror-domain = 定义域错误\nerror-depth = 超过最大递归深度\nerror-nan_or_inf = 结果为 NaN 或无穷大\nerror-undefined_symbol = 未定义符号\nerror-timeout = 求值超时\nerror-usage = 用法错误\nlabel-position = 位置\nlabel-hint = 提示\nlabel-error_kind = 错误类别\nlabel-exit_code = 退出码\nlabel-suggestion = 建议\nlabel-cached_suffix = { \" （已缓存）\" }\nmsg-unbound_variable = 未绑定变量: { $name }\nmsg-unknown_function = 未知函数: { $name }\nmsg-matrix_dim_mismatch = 矩阵维度不匹配: 期望 { $expected }, 实际 { $actual }\nmsg-function_arg_count = 函数 { $name } 期望 { $expected } 个参数, 实际 { $actual }\npanic-internal_error = calnexus: 内部错误（panic）\npanic-report_bug = calnexus: 请携带上方 backtrace 报告此问题\n"@
}

/// The catalogue of a language and the locale it is rendered with.
pub open spec fn spec_catalog(lang: Lang) -> (Seq<char>, Seq<char>) {
    match lang {
        Lang::En => (spec_en_catalog(), "en"@),
        Lang::Zh => (spec_zh_catalog(), "zh"@),
    }
}

fn catalog(lang: Lang) -> (r: (&'static str, &'static str))
    ensures
        (r.0@, r.1@) == spec_catalog(lang),
{
    match lang {
        Lang::En => (
            "error-parse = Parse error\nerror-eval = Evaluation error\nerror-overflow = Arithmetic overflow\nerror-division_by_zero = Division by zero\nerror-domain = Domain error\nerror-depth = Maximum recursion depth exceeded\nerror-nan_or_inf = Result is NaN or infinity\nerror-undefined_symbol = Undefined symbol\nerror-timeout = Evaluation timed out\nerror-usage = Usage error\nlabel-position = Position\nlabel-hint = Hint\nlabel-error_kind = Error Kind\nlabel-exit_code = Exit Code\nlabel-suggestion = Suggestion\nlabel-cached_suffix = { \" (cached)\" }\nmsg-unbound_variable = Unbound variable: { $name }\nmsg-unknown_function = Unknown function: { $name }\nmsg-matrix_dim_mismatch = Matrix dimension mismatch: expected { $expected }, got { $actual }\nmsg-function_arg_count = Function { $name } expects { $expected } args, got { $actual }\npanic-internal_error = calnexus: internal error (panic)\npanic-report_bug = calnexus: please report this bug with the backtrace above\n",
            "en",
        ),
        Lang::Zh => (
            "error-parse = 解析错误\nerror-eval = 求值错误\nerror-overflow = 算术溢出\nerror-division_by_zero = 除以零\nerror-domain = 定义域错误\nerror-depth = 超过最大递归深度\nerror-nan_or_inf = 结果为 NaN 或无穷大\nerror-undefined_symbol = 未定义符号\nerror-timeout = 求值超时\nerror-usage = 用法错误\nlabel-position = 位置\nlabel-hint = 提示\nlabel-error_kind = 错误类别\nlabel-exit_code = 退出码\nlabel-suggestion = 建议\nlabel-cached_suffix = { \" （已缓存）\" }\nmsg-unbound_variable = 未绑定变量: { $name }\nmsg-unknown_function = 未知函数: { $name }\nmsg-matrix_dim_mismatch = 矩阵维度不匹配: 期望 { $expected }, 实际 { $actual }\nmsg-function_arg_count = 函数 { $name } 期望 { $expected } 个参数, 实际 { $actual }\npanic-internal_error = calnexus: 内部错误（panic）\npanic-report_bug = calnexus: 请携带上方 backtrace 报告此问题\n",
            "zh",
        ),
    }
}

/// The Fluent identifier of a catalogue key: each `.` replaced by `-`.
pub open spec fn spec_fluent_id(key: Seq<char>) -> Seq<char> {
    key.map_values(|c: char| if c == '.' { '-' } else { c })
}

/// The Fluent identifier of a catalogue key: each `.` replaced by `-`.
pub fn fluent_id(key: &str) -> (r: String)
    ensures
        r@ == spec_fluent_id(key@),
{
    let cs = chars_of(key);
    let mut out: Vec<char> = Vec::new();
    let mut i: usize = 0;
    while i < cs.len()
        invariant
            cs@ == key@,
            i <= cs@.len(),
            out@ == spec_fluent_id(key@.take(i as int)),
        decreases cs@.len() - i,
    {
        let c = cs[i];
        out.push(if c == '.' { '-' } else { c });
        i = i + 1;
        assert(out@ =~= spec_fluent_id(key@.take(i as int)));
    }
    assert(key@.take(i as int) =~= key@);
    string_from_chars(&out)
}

/// The views of a list of named arguments.
pub open spec fn arg_views(args: Seq<(&str, &str)>) -> Seq<(Seq<char>, Seq<char>)> {
    args.map_values(|p: (&str, &str)| (p.0@, p.1@))
}

/// What `fluent-bundle` renders for the message `id` of the Fluent source
/// `ftl` under `locale` with the named string arguments, or `None` when the
/// source has no message `id` with a value.
pub uninterp spec fn fluent_render(
    ftl: Seq<char>,
    locale: Seq<char>,
    id: Seq<char>,
    args: Seq<(Seq<char>, Seq<char>)>,
) -> Option<Seq<char>>;

/// Renders message `id` of the Fluent source `ftl` with `fluent-bundle`:
/// parses the source (`FluentResource::try_new`, keeping what parsed), builds
/// a concurrent bundle for `locale` (`FluentBundle::new_concurrent`, Unicode
/// isolation marks off), adds the resource, looks the message up
/// (`get_message`, `value`) and formats it (`format_pattern`) with the
/// arguments as string values.
///
/// Trusted: the result is the crate's answer for these four inputs, named
/// `fluent_render`; nothing else is claimed of it.
#[verifier::external_body]
fn render_message(ftl: &str, locale: &str, id: &str, args: &[(&str, &str)]) -> (r: Option<String>)
    ensures
        r.is_some() == fluent_render(ftl@, locale@, id@, arg_views(args@)).is_some(),
        r matches Some(s) ==> fluent_render(ftl@, locale@, id@, arg_views(args@)) == Some(s@),
{
    let resource = fluent_bundle::FluentResource::try_new(ftl.to_string()).unwrap_or_else(|e| e.0);
    let langid: unic_langid::LanguageIdentifier = locale.parse().unwrap_or_default();
    let mut bundle = fluent_bundle::concurrent::FluentBundle::new_concurrent(vec![langid]);
    bundle.set_use_isolating(false);
    let _ = bundle.add_resource(resource);
    let pattern = bundle.get_message(id)?.value()?;
    let mut fluent_args = fluent_bundle::FluentArgs::new();
    for (name, value) in args {
        fluent_args.set(*name, fluent_bundle::FluentValue::from(*value));
    }
    let mut errors = vec![];
    Some(bundle.format_pattern(pattern, Some(&fluent_args), &mut errors).to_string())
}

/// The rendering of `key` in language `lang`: that language's catalogue, then
/// the English one, then the key itself.
pub open spec fn spec_tf(lang: Lang, key: Seq<char>, args: Seq<(Seq<char>, Seq<char>)>) -> Seq<char> {
    let (ftl, loc) = spec_catalog(lang);
    let (en_ftl, en_loc) = spec_catalog(Lang::En);
    match fluent_render(ftl, loc, spec_fluent_id(key), args) {
        Some(s) => s,
        None => match fluent_render(en_ftl, en_loc, spec_fluent_id(key), args) {
            Some(s) => s,
            None => key,
        },
    }
}

fn format_from_bundle(lang: Lang, key: &str, args: &[(&str, &str)]) -> (r: Option<String>)
    ensures
        r.is_some() == fluent_render(spec_catalog(lang).0, spec_catalog(lang).1, spec_fluent_id(key@), arg_views(args@)).is_some(),
        r matches Some(s) ==> fluent_render(spec_catalog(lang).0, spec_catalog(lang).1, spec_fluent_id(key@), arg_views(args@)) == Some(s@),
{
    let (ftl, locale) = catalog(lang);
    let id = fluent_id(key);
    render_message(ftl, locale, id.as_str(), args)
}

impl I18n {
    /// A lookup context for the given language.
    pub fn new(lang: Lang) -> (r: Self)
        ensures
            r@ == lang,
    {
        I18n { lang }
    }

    /// A lookup context for a BCP-47 language tag; unknown languages give English.
    pub fn from_str(s: &str) -> (r: Self)
        ensures
            r@ == spec_parse_lang(s@),
    {
        Self::new(parse_lang_simple(s))
    }

    /// A lookup context for the detected language: the first of the sources
    /// (`CALNEXUS_LANG`, `LC_ALL`, `LC_MESSAGES`, `LANG`, system locale) that
    /// names a supported language, English when none does.
    pub fn from_detected(sources: &Vec<Option<String>>) -> (r: Self)
        ensures
            r@ == spec_detect(option_views(sources@)),
    {
        Self::new(detect_from(sources))
    }

    /// The current language.
    pub fn lang(&self) -> (l: Lang)
        ensures
            l == self@,
    {
        self.lang
    }

    /// The message for `key` without arguments (placeholders are echoed).
    pub fn t(&self, key: &str) -> (s: String)
        ensures
            s@ == spec_tf(self@, key@, Seq::empty()),
    {
        let no_args: Vec<(&str, &str)> = Vec::new();
        assert(arg_views(no_args@) =~= Seq::<(Seq<char>, Seq<char>)>::empty());
        self.tf(key, no_args.as_slice())
    }

    /// The message for `key` with named arguments: the current language's
    /// catalogue, then the English one, then the key itself.
    pub fn tf(&self, key: &str, args: &[(&str, &str)]) -> (s: String)
        ensures
            s@ == spec_tf(self@, key@, arg_views(args@)),
    {
        match format_from_bundle(self.lang, key, args) {
            Some(s) => s,
            None => match format_from_bundle(Lang::En, key, args) {
                Some(s) => s,
                None => owned(key),
            },
        }
    }
}

impl Default for I18n {
    fn default() -> (r: Self)
        ensures
            r@ == Lang::En,
    {
        Self::new(Lang::En)
    }
}

} // verus!
