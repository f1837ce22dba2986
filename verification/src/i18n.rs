//! UI chrome localization: language resolution and built-in string tables.

use vstd::prelude::*;

use crate::schema::{LangMode, UiStrings};

verus! {

/// Supported UI languages.
#[derive(Debug, Clone, Copy, PartialEq, Eq, Structural)]
pub enum Lang {
    Ar,
    Zh,
    De,
    En,
    Fr,
    Hi,
    It,
    Ja,
    Ko,
    Nl,
    Pt,
    Ru,
    Es,
    Sv,
    Tr,
    Vi,
}

/// The two-letter base language code of `l`.
pub open spec fn lang_code(l: Lang) -> Seq<char> {
    match l {
        Lang::Ar => seq!['a', 'r'],
        Lang::Zh => seq!['z', 'h'],
        Lang::De => seq!['d', 'e'],
        Lang::En => seq!['e', 'n'],
        Lang::Fr => seq!['f', 'r'],
        Lang::Hi => seq!['h', 'i'],
        Lang::It => seq!['i', 't'],
        Lang::Ja => seq!['j', 'a'],
        Lang::Ko => seq!['k', 'o'],
        Lang::Nl => seq!['n', 'l'],
        Lang::Pt => seq!['p', 't'],
        Lang::Ru => seq!['r', 'u'],
        Lang::Es => seq!['e', 's'],
        Lang::Sv => seq!['s', 'v'],
        Lang::Tr => seq!['t', 'r'],
        Lang::Vi => seq!['v', 'i'],
    }
}

impl Lang {
    /// The BCP-47 base language code, used to select localized schema strings.
    pub fn code(self) -> (r: &'static str)
        ensures
            r@ == lang_code(self),
    {
        proof {
            reveal_strlit("ar");
            reveal_strlit("zh");
            reveal_strlit("de");
            reveal_strlit("en");
            reveal_strlit("fr");
            reveal_strlit("hi");
            reveal_strlit("it");
            reveal_strlit("ja");
            reveal_strlit("ko");
            reveal_strlit("nl");
            reveal_strlit("pt");
            reveal_strlit("ru");
            reveal_strlit("es");
            reveal_strlit("sv");
            reveal_strlit("tr");
            reveal_strlit("vi");
        }
        match self {
            Lang::Ar => "ar",
            Lang::Zh => "zh",
            Lang::De => "de",
            Lang::En => "en",
            Lang::Fr => "fr",
            Lang::Hi => "hi",
            Lang::It => "it",
            Lang::Ja => "ja",
            Lang::Ko => "ko",
            Lang::Nl => "nl",
            Lang::Pt => "pt",
            Lang::Ru => "ru",
            Lang::Es => "es",
            Lang::Sv => "sv",
            Lang::Tr => "tr",
            Lang::Vi => "vi",
        }
    }
}


/// `char::is_whitespace`: the Unicode `White_Space` property.
pub open spec fn is_white_space(c: char) -> bool {
    ||| '\u{9}' <= c <= '\u{d}'
    ||| c == ' '
    ||| c == '\u{85}'
    ||| c == '\u{a0}'
    ||| c == '\u{1680}'
    ||| '\u{2000}' <= c <= '\u{200a}'
    ||| c == '\u{2028}'
    ||| c == '\u{2029}'
    ||| c == '\u{202f}'
    ||| c == '\u{205f}'
    ||| c == '\u{3000}'
}

/// `s` without its leading white space.
pub open spec fn trim_start(s: Seq<char>) -> Seq<char>
    decreases s.len(),
{
    if s.len() > 0 && is_white_space(s[0]) {
        trim_start(s.drop_first())
    } else {
        s
    }
}

/// `s` without its trailing white space.
pub open spec fn trim_end(s: Seq<char>) -> Seq<char>
    decreases s.len(),
{
    if s.len() > 0 && is_white_space(s.last()) {
        trim_end(s.drop_last())
    } else {
        s
    }
}

/// `str::trim`.
pub open spec fn trim(s: Seq<char>) -> Seq<char> {
    trim_end(trim_start(s))
}

/// `char::to_ascii_lowercase`.
pub open spec fn ascii_lower(c: char) -> char {
    if 'A' <= c <= 'Z' {
        ((c as u32) + 32) as char
    } else {
        c
    }
}

/// `str::to_ascii_lowercase`.
pub open spec fn lower(s: Seq<char>) -> Seq<char> {
    s.map_values(|c: char| ascii_lower(c))
}

/// The primary language subtag: everything before the first `'-'` or `'_'`.
pub open spec fn primary_subtag(s: Seq<char>) -> Seq<char>
    decreases s.len(),
{
    if s.len() == 0 || s[0] == '-' || s[0] == '_' {
        Seq::empty()
    } else {
        seq![s[0]] + primary_subtag(s.drop_first())
    }
}

/// The language whose code is the two characters `a`, `b`.
pub open spec fn lang_of_pair(a: char, b: char) -> Option<Lang> {
    if a == 'a' && b == 'r' {
        Some(Lang::Ar)
    } else if a == 'z' && b == 'h' {
        Some(Lang::Zh)
    } else if a == 'd' && b == 'e' {
        Some(Lang::De)
    } else if a == 'e' && b == 'n' {
        Some(Lang::En)
    } else if a == 'f' && b == 'r' {
        Some(Lang::Fr)
    } else if a == 'h' && b == 'i' {
        Some(Lang::Hi)
    } else if a == 'i' && b == 't' {
        Some(Lang::It)
    } else if a == 'j' && b == 'a' {
        Some(Lang::Ja)
    } else if a == 'k' && b == 'o' {
        Some(Lang::Ko)
    } else if a == 'n' && b == 'l' {
        Some(Lang::Nl)
    } else if a == 'p' && b == 't' {
        Some(Lang::Pt)
    } else if a == 'r' && b == 'u' {
        Some(Lang::Ru)
    } else if a == 'e' && b == 's' {
        Some(Lang::Es)
    } else if a == 's' && b == 'v' {
        Some(Lang::Sv)
    } else if a == 't' && b == 'r' {
        Some(Lang::Tr)
    } else if a == 'v' && b == 'i' {
        Some(Lang::Vi)
    } else {
        None
    }
}

/// The language whose code is `p`, if any.
pub open spec fn lang_of_code(p: Seq<char>) -> Option<Lang> {
    if p.len() == 2 {
        lang_of_pair(p[0], p[1])
    } else {
        None
    }
}

/// What `parse_lang_tag` gives for `tag`: trimmed and lower-cased, empty,
/// `"c"` and `"posix"` give nothing; otherwise the primary subtag decides.
pub open spec fn lang_of_tag(tag: Seq<char>) -> Option<Lang> {
    let t = lower(trim(tag));
    if t.len() == 0 || t == seq!['c'] || t == seq!['p', 'o', 's', 'i', 'x'] {
        None
    } else {
        lang_of_code(primary_subtag(t))
    }
}

/// The first of `tags` that names a known language.
pub open spec fn first_known(tags: Seq<Seq<char>>) -> Option<Lang>
    decreases tags.len(),
{
    if tags.len() == 0 {
        None
    } else {
        match lang_of_tag(tags[0]) {
            Some(l) => Some(l),
            None => first_known(tags.drop_first()),
        }
    }
}

fn is_white_space_char(c: char) -> (r: bool)
    ensures
        r == is_white_space(c),
{
    ('\u{9}' <= c && c <= '\u{d}') || c == ' ' || c == '\u{85}' || c == '\u{a0}' || c == '\u{1680}'
        || ('\u{2000}' <= c && c <= '\u{200a}') || c == '\u{2028}' || c == '\u{2029}' || c
        == '\u{202f}' || c == '\u{205f}' || c == '\u{3000}'
}

fn ascii_lower_char(c: char) -> (r: char)
    ensures
        r == ascii_lower(c),
{
    if 'A' <= c && c <= 'Z' {
        let u: u8 = c as u8;
        assert(u == c as u32);
        ((u + 32) as u8) as char
    } else {
        c
    }
}


fn lang_from_pair(a: char, b: char) -> (r: Option<Lang>)
    ensures
        r == lang_of_pair(a, b),
{
    if a == 'a' && b == 'r' {
        Some(Lang::Ar)
    } else if a == 'z' && b == 'h' {
        Some(Lang::Zh)
    } else if a == 'd' && b == 'e' {
        Some(Lang::De)
    } else if a == 'e' && b == 'n' {
        Some(Lang::En)
    } else if a == 'f' && b == 'r' {
        Some(Lang::Fr)
    } else if a == 'h' && b == 'i' {
        Some(Lang::Hi)
    } else if a == 'i' && b == 't' {
        Some(Lang::It)
    } else if a == 'j' && b == 'a' {
        Some(Lang::Ja)
    } else if a == 'k' && b == 'o' {
        Some(Lang::Ko)
    } else if a == 'n' && b == 'l' {
        Some(Lang::Nl)
    } else if a == 'p' && b == 't' {
        Some(Lang::Pt)
    } else if a == 'r' && b == 'u' {
        Some(Lang::Ru)
    } else if a == 'e' && b == 's' {
        Some(Lang::Es)
    } else if a == 's' && b == 'v' {
        Some(Lang::Sv)
    } else if a == 't' && b == 'r' {
        Some(Lang::Tr)
    } else if a == 'v' && b == 'i' {
        Some(Lang::Vi)
    } else {
        None
    }
}

/// The span `[start, end)` of `s` that `str::trim` keeps.
fn trim_span(s: &str) -> (r: (usize, usize))
    ensures
        r.0 <= r.1 <= s@.len(),
        trim(s@) == s@.subrange(r.0 as int, r.1 as int),
{
    let n = s.unicode_len();
    let ghost v = s@;
    let mut start: usize = 0;
    assert(v.subrange(0, n as int) =~= v);
    while start < n
        invariant
            n == v.len(),
            v == s@,
            start <= n,
            trim_start(v) == trim_start(v.subrange(start as int, n as int)),
        ensures
            start <= n,
            trim_start(v) == trim_start(v.subrange(start as int, n as int)),
            start == n || !is_white_space(v[start as int]),
        decreases n - start,
    {
        if !is_white_space_char(s.get_char(start)) {
            break;
        }
        assert(v.subrange(start as int, n as int).drop_first() =~= v.subrange(
            start + 1,
            n as int,
        ));
        start = start + 1;
    }
    let ghost front = v.subrange(start as int, n as int);
    assert(trim_start(v) == front) by {
        if start == n {
            assert(front.len() == 0);
        } else {
            assert(front[0] == v[start as int]);
        }
    }
    let mut end: usize = n;
    assert(v.subrange(start as int, n as int) =~= front);
    while end > start
        invariant
            n == v.len(),
            v == s@,
            start <= end <= n,
            trim_end(front) == trim_end(v.subrange(start as int, end as int)),
        ensures
            start <= end <= n,
            trim_end(front) == trim_end(v.subrange(start as int, end as int)),
            end == start || !is_white_space(v[end - 1]),
        decreases end - start,
    {
        if !is_white_space_char(s.get_char(end - 1)) {
            break;
        }
        assert(v.subrange(start as int, end as int).drop_last() =~= v.subrange(
            start as int,
            end - 1,
        ));
        end = end - 1;
    }
    proof {
        let back = v.subrange(start as int, end as int);
        if end > start {
            assert(back.last() == v[end - 1]);
        }
        assert(trim_end(back) == back);
    }
    (start, end)
}

/// Maps a BCP-47 / POSIX language tag (`"ja"`, `"ja-JP"`, `"en_US"`) to a
/// [`Lang`]. Empty, placeholder (`"C"`, `"POSIX"`) and unknown tags give `None`
/// so that the caller can fall through to the next source.
pub fn parse_lang_tag(tag: &str) -> (r: Option<Lang>)
    ensures
        r == lang_of_tag(tag@),
{
    let (start, end) = trim_span(tag);
    let ghost t = tag@.subrange(start as int, end as int);
    let ghost x = lower(t);
    let len = end - start;
    if len == 0 {
        return None;
    }
    let c0 = ascii_lower_char(tag.get_char(start));
    assert(x[0] == c0);
    if len == 1 && c0 == 'c' {
        assert(x =~= seq!['c']);
        return None;
    }
    if len == 5 && c0 == 'p' {
        let c1 = ascii_lower_char(tag.get_char(start + 1));
        let c2 = ascii_lower_char(tag.get_char(start + 2));
        let c3 = ascii_lower_char(tag.get_char(start + 3));
        let c4 = ascii_lower_char(tag.get_char(start + 4));
        if c1 == 'o' && c2 == 's' && c3 == 'i' && c4 == 'x' {
            assert(x =~= seq!['p', 'o', 's', 'i', 'x']);
            return None;
        }
        assert(x[1] == c1 && x[2] == c2 && x[3] == c3 && x[4] == c4);
    }
    assert(x != seq!['c']) by {
        if x == seq!['c'] {
            assert(x[0] == seq!['c'][0]);
        }
    }
    assert(x != seq!['p', 'o', 's', 'i', 'x']) by {
        if x == seq!['p', 'o', 's', 'i', 'x'] {
            assert(x.len() == 5);
            assert(x[0] == 'p');
            assert(x[1] == seq!['p', 'o', 's', 'i', 'x'][1]);
            assert(x[2] == seq!['p', 'o', 's', 'i', 'x'][2]);
            assert(x[3] == seq!['p', 'o', 's', 'i', 'x'][3]);
            assert(x[4] == seq!['p', 'o', 's', 'i', 'x'][4]);
        }
    }
    // Find the end of the primary subtag.
    let mut k: usize = start;
    assert(x.subrange(0, 0) + x.subrange(0, len as int) =~= x);
    while k < end
        invariant
            start <= k <= end <= tag@.len(),
            len == end - start,
            t == tag@.subrange(start as int, end as int),
            x == lower(t),
            primary_subtag(x) == x.subrange(0, k - start) + primary_subtag(
                x.subrange(k - start, len as int),
            ),
        ensures
            start <= k <= end,
            primary_subtag(x) == x.subrange(0, k - start) + primary_subtag(
                x.subrange(k - start, len as int),
            ),
            k == end || x[k - start] == '-' || x[k - start] == '_',
        decreases end - k,
    {
        let c = ascii_lower_char(tag.get_char(k));
        let ghost rest = x.subrange(k - start, len as int);
        assert(rest[0] == c);
        if c == '-' || c == '_' {
            break;
        }
        assert(rest.drop_first() =~= x.subrange(k - start + 1, len as int));
        assert(x.subrange(0, k - start) + seq![c] =~= x.subrange(0, k - start + 1));
        assert(x.subrange(0, k - start) + (seq![c] + primary_subtag(rest.drop_first()))
            =~= x.subrange(0, k - start + 1) + primary_subtag(rest.drop_first()));
        k = k + 1;
    }
    let m = k - start;
    proof {
        let rest = x.subrange(m as int, len as int);
        if m < len {
            assert(rest[0] == x[m as int]);
        }
        assert(primary_subtag(rest) == Seq::<char>::empty());
        assert(primary_subtag(x) =~= x.subrange(0, m as int));
    }
    if m != 2 {
        return None;
    }
    let c1 = ascii_lower_char(tag.get_char(start + 1));
    assert(x[1] == c1);
    lang_from_pair(c0, c1)
}


/// The language that `Lang::resolve` settles on.
pub open spec fn resolved_lang(mode: LangMode, parent_lang: Option<&str>, os_tags: Seq<Seq<char>>) -> Lang {
    match mode {
        LangMode::Fixed(code) => match lang_of_tag(code@) {
            Some(l) => l,
            None => Lang::En,
        },
        LangMode::Os => {
            let from_parent = match parent_lang {
                Some(p) => lang_of_tag(p@),
                None => None,
            };
            match from_parent {
                Some(l) => l,
                None => match first_known(os_tags) {
                    Some(l) => l,
                    None => Lang::En,
                },
            }
        },
    }
}

/// The first of the operating system's language tags, in its order of
/// preference, that names a known language.
pub fn first_known_lang(tags: &[String]) -> (r: Option<Lang>)
    ensures
        r == first_known(tags@.map_values(|t: String| t@)),
{
    let ghost all = tags@.map_values(|t: String| t@);
    let mut i: usize = 0;
    assert(all.subrange(0, all.len() as int) =~= all);
    while i < tags.len()
        invariant
            i <= tags.len(),
            all == tags@.map_values(|t: String| t@),
            first_known(all) == first_known(all.subrange(i as int, all.len() as int)),
        decreases tags.len() - i,
    {
        let ghost rest = all.subrange(i as int, all.len() as int);
        assert(rest[0] == tags@[i as int]@);
        match parse_lang_tag(tags[i].as_str()) {
            Some(l) => {
                return Some(l);
            },
            None => {},
        }
        assert(rest.drop_first() =~= all.subrange(i + 1, all.len() as int));
        i = i + 1;
    }
    None
}

impl Lang {
    /// Resolves the effective UI language.
    ///
    /// * `LangMode::Fixed`: the explicit tag, or English when it is unknown.
    /// * `LangMode::Os`: the parent application's language (`parent_lang`,
    ///   read from the config file under the schema's `lang_key`), then the
    ///   operating system's preferred languages `os_tags`, then English.
    pub fn resolve(mode: &LangMode, parent_lang: Option<&str>, os_tags: &[String]) -> (r: Lang)
        ensures
            r == resolved_lang(*mode, parent_lang, os_tags@.map_values(|t: String| t@)),
    {
        match mode {
            LangMode::Fixed(code) => match parse_lang_tag(code.as_str()) {
                Some(l) => l,
                None => Lang::En,
            },
            LangMode::Os => {
                let from_parent = match parent_lang {
                    Some(p) => parse_lang_tag(p),
                    None => None,
                };
                match from_parent {
                    Some(l) => l,
                    None => match first_known_lang(os_tags) {
                        Some(l) => l,
                        None => Lang::En,
                    },
                }
            },
        }
    }
}


/// All built-in UI strings for one language.
#[derive(Debug, Clone, Copy)]
pub struct Strings {
    pub ok: &'static str,
    pub apply: &'static str,
    pub no_sections: &'static str,
    pub add_section: &'static str,
    pub section_name_label: &'static str,
    pub add: &'static str,
    pub cancel: &'static str,
    pub enter_name: &'static str,
    pub delete: &'static str,
    /// Template for the delete confirmation; use [`Strings::delete_confirm`].
    pub delete_confirm_tmpl: &'static str,
    pub browse: &'static str,
    /// "All files" entry of the file dialog's filter list.
    pub all_files: &'static str,
    pub click_to_input: &'static str,
    pub press_key: &'static str,
    pub clear: &'static str,
    pub show: &'static str,
    pub hide: &'static str,
    /// Body of the external-change conflict dialog.
    pub file_changed: &'static str,
    /// "Reload" button of the conflict dialog.
    pub reload: &'static str,
    /// "Keep Editing" button of the conflict dialog.
    pub keep_editing: &'static str,
    /// Window title bar text.
    pub window_title: &'static str,
}

/// The built-in string table of each language.
pub open spec fn builtin_table(l: Lang) -> Strings {
    match l {
        Lang::Ar => Strings {
            ok: "موافق",
            apply: "تطبيق",
            no_sections: "(لا توجد أقسام)",
            add_section: "إضافة قسم",
            section_name_label: "اسم القسم:",
            add: "إضافة",
            cancel: "إلغاء",
            enter_name: "الرجاء إدخال اسم",
            delete: "حذف",
            delete_confirm_tmpl: "هل تريد حذف \"{}\"؟",
            browse: "استعراض…",
            all_files: "كل الملفات",
            click_to_input: "انقر للإدخال…",
            press_key: "اضغط مفتاحًا…",
            clear: "مسح",
            show: "إظهار",
            hide: "إخفاء",
            file_changed: "تم تعديل ملف الإعدادات خارجيًا. سيؤدي إعادة التحميل إلى تجاهل تعديلاتك الحالية. إذا واصلت التعديل وحفظت، ستُستبدل التغييرات الخارجية.",
            reload: "إعادة تحميل",
            keep_editing: "مواصلة التعديل",
            window_title: "الإعدادات",
        },
        Lang::Zh => Strings {
            ok: "确定",
            apply: "应用",
            no_sections: "（无分区）",
            add_section: "添加分区",
            section_name_label: "分区名称：",
            add: "添加",
            cancel: "取消",
            enter_name: "请输入名称",
            delete: "删除",
            delete_confirm_tmpl: "删除\"{}\"？",
            browse: "浏览…",
            all_files: "所有文件",
            click_to_input: "点击输入…",
            press_key: "请按键…",
            clear: "清除",
            show: "显示",
            hide: "隐藏",
            file_changed: "配置文件已被外部修改。重新加载将丢弃您当前的编辑内容。继续编辑并保存将覆盖外部的更改。",
            reload: "重新加载",
            keep_editing: "继续编辑",
            window_title: "设置",
        },
        Lang::De => Strings {
            ok: "OK",
            apply: "Übernehmen",
            no_sections: "(keine Abschnitte)",
            add_section: "Abschnitt hinzufügen",
            section_name_label: "Abschnittsname:",
            add: "Hinzufügen",
            cancel: "Abbrechen",
            enter_name: "Bitte einen Namen eingeben",
            delete: "Löschen",
            delete_confirm_tmpl: "\"{}\" löschen?",
            browse: "Durchsuchen…",
            all_files: "Alle Dateien",
            click_to_input: "Klicken zum Eingeben…",
            press_key: "Taste drücken…",
            clear: "Leeren",
            show: "Anzeigen",
            hide: "Ausblenden",
            file_changed: "Die Konfigurationsdatei wurde extern geändert. Beim Neuladen gehen Ihre aktuellen Änderungen verloren. Wenn Sie weiterbearbeiten und speichern, werden die externen Änderungen überschrieben.",
            reload: "Neu laden",
            keep_editing: "Weiterbearbeiten",
            window_title: "Einstellungen",
        },
        Lang::En => Strings {
            ok: "OK",
            apply: "Apply",
            no_sections: "(no sections)",
            add_section: "Add section",
            section_name_label: "Section name:",
            add: "Add",
            cancel: "Cancel",
            enter_name: "Please enter a name",
            delete: "Delete",
            delete_confirm_tmpl: "Delete \"{}\"?",
            browse: "Browse…",
            all_files: "All files",
            click_to_input: "Click to enter…",
            press_key: "Press a key…",
            clear: "Clear",
            show: "Show",
            hide: "Hide",
            file_changed: "The config file was modified externally. Reloading will discard your current edits. Continuing to edit and then saving will overwrite the external changes.",
            reload: "Reload",
            keep_editing: "Keep Editing",
            window_title: "Settings",
        },
        Lang::Fr => Strings {
            ok: "OK",
            apply: "Appliquer",
            no_sections: "(aucune section)",
            add_section: "Ajouter une section",
            section_name_label: "Nom de la section :",
            add: "Ajouter",
            cancel: "Annuler",
            enter_name: "Veuillez entrer un nom",
            delete: "Supprimer",
            delete_confirm_tmpl: "Supprimer \"{}\" ?",
            browse: "Parcourir…",
            all_files: "Tous les fichiers",
            click_to_input: "Cliquer pour saisir…",
            press_key: "Appuyez sur une touche…",
            clear: "Effacer",
            show: "Afficher",
            hide: "Masquer",
            file_changed: "Le fichier de configuration a été modifié en dehors de l'application. Recharger supprimera vos modifications en cours. Continuer à modifier et sauvegarder écrasera les modifications externes.",
            reload: "Recharger",
            keep_editing: "Continuer à modifier",
            window_title: "Préférences",
        },
        Lang::Hi => Strings {
            ok: "ठीक है",
            apply: "लागू करें",
            no_sections: "(कोई अनुभाग नहीं)",
            add_section: "अनुभाग जोड़ें",
            section_name_label: "अनुभाग का नाम:",
            add: "जोड़ें",
            cancel: "रद्द करें",
            enter_name: "कृपया एक नाम दर्ज करें",
            delete: "हटाएं",
            delete_confirm_tmpl: "\"{}\" हटाएं?",
            browse: "ब्राउज़ करें…",
            all_files: "सभी फ़ाइलें",
            click_to_input: "इनपुट के लिए क्लिक करें…",
            press_key: "एक कुंजी दबाएं…",
            clear: "साफ़ करें",
            show: "दिखाएं",
            hide: "छुपाएं",
            file_changed: "कॉन्फ़िग फ़ाइल को बाहरी रूप से संशोधित किया गया। पुनः लोड करने पर आपके वर्तमान संपादन हट जाएंगे। संपादन जारी रखकर सहेजने पर बाहरी परिवर्तन अधिलेखित हो जाएंगे।",
            reload: "पुनः लोड करें",
            keep_editing: "संपादन जारी रखें",
            window_title: "सेटिंग्स",
        },
        Lang::It => Strings {
            ok: "OK",
            apply: "Applica",
            no_sections: "(nessuna sezione)",
            add_section: "Aggiungi sezione",
            section_name_label: "Nome sezione:",
            add: "Aggiungi",
            cancel: "Annulla",
            enter_name: "Inserire un nome",
            delete: "Elimina",
            delete_confirm_tmpl: "Eliminare \"{}\"?",
            browse: "Sfoglia…",
            all_files: "Tutti i file",
            click_to_input: "Clicca per inserire…",
            press_key: "Premi un tasto…",
            clear: "Cancella",
            show: "Mostra",
            hide: "Nascondi",
            file_changed: "Il file di configurazione è stato modificato esternamente. Ricaricare eliminerà le modifiche correnti. Continuare a modificare e salvare sovrascriverà le modifiche esterne.",
            reload: "Ricarica",
            keep_editing: "Continua a modificare",
            window_title: "Impostazioni",
        },
        Lang::Ja => Strings {
            ok: "OK",
            apply: "適用",
            no_sections: "(セクションなし)",
            add_section: "セクションを追加",
            section_name_label: "セクション名:",
            add: "追加",
            cancel: "キャンセル",
            enter_name: "名前を入力してください",
            delete: "削除",
            delete_confirm_tmpl: "「{}」を削除しますか？",
            browse: "参照…",
            all_files: "すべてのファイル",
            click_to_input: "クリックして入力…",
            press_key: "キーを押してください…",
            clear: "クリア",
            show: "表示",
            hide: "隠す",
            file_changed: "設定ファイルが外部で変更されました。再読み込みすると現在の編集内容は失われます。編集を続けて保存すると，外部での変更は上書きされます。",
            reload: "再読み込み",
            keep_editing: "編集を続ける",
            window_title: "設定",
        },
        Lang::Ko => Strings {
            ok: "확인",
            apply: "적용",
            no_sections: "(섹션 없음)",
            add_section: "섹션 추가",
            section_name_label: "섹션 이름:",
            add: "추가",
            cancel: "취소",
            enter_name: "이름을 입력하세요",
            delete: "삭제",
            delete_confirm_tmpl: "\"{}\"을(를) 삭제하시겠습니까?",
            browse: "찾아보기…",
            all_files: "모든 파일",
            click_to_input: "클릭하여 입력…",
            press_key: "키를 누르세요…",
            clear: "지우기",
            show: "표시",
            hide: "숨기기",
            file_changed: "설정 파일이 외부에서 수정되었습니다. 다시 불러오면 현재 편집 내용이 삭제됩니다. 계속 편집하여 저장하면 외부 변경 사항이 덮어씌워집니다.",
            reload: "다시 불러오기",
            keep_editing: "계속 편집",
            window_title: "설정",
        },
        Lang::Nl => Strings {
            ok: "OK",
            apply: "Toepassen",
            no_sections: "(geen secties)",
            add_section: "Sectie toevoegen",
            section_name_label: "Sectienaam:",
            add: "Toevoegen",
            cancel: "Annuleren",
            enter_name: "Voer een naam in",
            delete: "Verwijderen",
            delete_confirm_tmpl: "\"{}\" verwijderen?",
            browse: "Bladeren…",
            all_files: "Alle bestanden",
            click_to_input: "Klik om in te voeren…",
            press_key: "Druk op een toets…",
            clear: "Wissen",
            show: "Tonen",
            hide: "Verbergen",
            file_changed: "Het configuratiebestand is extern gewijzigd. Herladen verwijdert uw huidige wijzigingen. Als u doorgaat met bewerken en opslaat, worden de externe wijzigingen overschreven.",
            reload: "Herladen",
            keep_editing: "Doorgaan met bewerken",
            window_title: "Instellingen",
        },
        Lang::Pt => Strings {
            ok: "OK",
            apply: "Aplicar",
            no_sections: "(sem seções)",
            add_section: "Adicionar seção",
            section_name_label: "Nome da seção:",
            add: "Adicionar",
            cancel: "Cancelar",
            enter_name: "Por favor, insira um nome",
            delete: "Excluir",
            delete_confirm_tmpl: "Excluir \"{}\"?",
            browse: "Procurar…",
            all_files: "Todos os arquivos",
            click_to_input: "Clique para inserir…",
            press_key: "Pressione uma tecla…",
            clear: "Limpar",
            show: "Mostrar",
            hide: "Ocultar",
            file_changed: "O arquivo de configuração foi modificado externamente. Recarregar descartará suas edições atuais. Continuar editando e salvar sobrescreverá as alterações externas.",
            reload: "Recarregar",
            keep_editing: "Continuar editando",
            window_title: "Configurações",
        },
        Lang::Ru => Strings {
            ok: "ОК",
            apply: "Применить",
            no_sections: "(нет разделов)",
            add_section: "Добавить раздел",
            section_name_label: "Название раздела:",
            add: "Добавить",
            cancel: "Отмена",
            enter_name: "Введите имя",
            delete: "Удалить",
            delete_confirm_tmpl: "Удалить \"{}\"?",
            browse: "Обзор…",
            all_files: "Все файлы",
            click_to_input: "Щёлкните для ввода…",
            press_key: "Нажмите клавишу…",
            clear: "Очистить",
            show: "Показать",
            hide: "Скрыть",
            file_changed: "Файл конфигурации был изменён внешней программой. Перезагрузка удалит текущие изменения. Продолжение редактирования с последующим сохранением перезапишет внешние изменения.",
            reload: "Перезагрузить",
            keep_editing: "Продолжить редактирование",
            window_title: "Настройки",
        },
        Lang::Es => Strings {
            ok: "Aceptar",
            apply: "Aplicar",
            no_sections: "(sin secciones)",
            add_section: "Agregar sección",
            section_name_label: "Nombre de sección:",
            add: "Agregar",
            cancel: "Cancelar",
            enter_name: "Por favor, ingrese un nombre",
            delete: "Eliminar",
            delete_confirm_tmpl: "¿Eliminar \"{}\"?",
            browse: "Examinar…",
            all_files: "Todos los archivos",
            click_to_input: "Haga clic para ingresar…",
            press_key: "Presione una tecla…",
            clear: "Borrar",
            show: "Mostrar",
            hide: "Ocultar",
            file_changed: "El archivo de configuración fue modificado externamente. Recargar descartará sus ediciones actuales. Si continúa editando y guarda, los cambios externos serán sobrescritos.",
            reload: "Recargar",
            keep_editing: "Continuar editando",
            window_title: "Ajustes",
        },
        Lang::Sv => Strings {
            ok: "OK",
            apply: "Verkställ",
            no_sections: "(inga avsnitt)",
            add_section: "Lägg till avsnitt",
            section_name_label: "Avsnittets namn:",
            add: "Lägg till",
            cancel: "Avbryt",
            enter_name: "Ange ett namn",
            delete: "Ta bort",
            delete_confirm_tmpl: "Ta bort \"{}\"?",
            browse: "Bläddra…",
            all_files: "Alla filer",
            click_to_input: "Klicka för att ange…",
            press_key: "Tryck på en tangent…",
            clear: "Rensa",
            show: "Visa",
            hide: "Dölj",
            file_changed: "Konfigurationsfilen har ändrats externt. Att ladda om tar bort dina aktuella redigeringar. Om du fortsätter redigera och sparar skrivs de externa ändringarna över.",
            reload: "Ladda om",
            keep_editing: "Fortsätt redigera",
            window_title: "Inställningar",
        },
        Lang::Tr => Strings {
            ok: "Tamam",
            apply: "Uygula",
            no_sections: "(bölüm yok)",
            add_section: "Bölüm ekle",
            section_name_label: "Bölüm adı:",
            add: "Ekle",
            cancel: "İptal",
            enter_name: "Lütfen bir ad girin",
            delete: "Sil",
            delete_confirm_tmpl: "\"{}\" silinsin mi?",
            browse: "Gözat…",
            all_files: "Tüm dosyalar",
            click_to_input: "Girmek için tıklayın…",
            press_key: "Bir tuşa basın…",
            clear: "Temizle",
            show: "Göster",
            hide: "Gizle",
            file_changed: "Yapılandırma dosyası harici olarak değiştirildi. Yeniden yüklemek mevcut düzenlemelerinizi siler. Düzenlemeye devam edip kaydederseniz, harici değişiklikler üzerine yazılır.",
            reload: "Yeniden yükle",
            keep_editing: "Düzenlemeye devam et",
            window_title: "Ayarlar",
        },
        Lang::Vi => Strings {
            ok: "OK",
            apply: "Áp dụng",
            no_sections: "(không có mục)",
            add_section: "Thêm mục",
            section_name_label: "Tên mục:",
            add: "Thêm",
            cancel: "Hủy",
            enter_name: "Vui lòng nhập tên",
            delete: "Xóa",
            delete_confirm_tmpl: "Xóa \"{}\"?",
            browse: "Duyệt…",
            all_files: "Tất cả tệp",
            click_to_input: "Nhấp để nhập…",
            press_key: "Nhấn phím…",
            clear: "Xóa",
            show: "Hiện",
            hide: "Ẩn",
            file_changed: "Tệp cấu hình đã bị sửa đổi bên ngoài. Tải lại sẽ xóa các chỉnh sửa hiện tại của bạn. Tiếp tục chỉnh sửa và lưu sẽ ghi đè các thay đổi bên ngoài.",
            reload: "Tải lại",
            keep_editing: "Tiếp tục chỉnh sửa",
            window_title: "Cài đặt",
        },
    }
}

/// The built-in string table of `lang`.
pub fn builtin(lang: Lang) -> (r: Strings)
    ensures
        r == builtin_table(lang),
{
    match lang {
        Lang::Ar => Strings {
            ok: "موافق",
            apply: "تطبيق",
            no_sections: "(لا توجد أقسام)",
            add_section: "إضافة قسم",
            section_name_label: "اسم القسم:",
            add: "إضافة",
            cancel: "إلغاء",
            enter_name: "الرجاء إدخال اسم",
            delete: "حذف",
            delete_confirm_tmpl: "هل تريد حذف \"{}\"؟",
            browse: "استعراض…",
            all_files: "كل الملفات",
            click_to_input: "انقر للإدخال…",
            press_key: "اضغط مفتاحًا…",
            clear: "مسح",
            show: "إظهار",
            hide: "إخفاء",
            file_changed: "تم تعديل ملف الإعدادات خارجيًا. سيؤدي إعادة التحميل إلى تجاهل تعديلاتك الحالية. إذا واصلت التعديل وحفظت، ستُستبدل التغييرات الخارجية.",
            reload: "إعادة تحميل",
            keep_editing: "مواصلة التعديل",
            window_title: "الإعدادات",
        },
        Lang::Zh => Strings {
            ok: "确定",
            apply: "应用",
            no_sections: "（无分区）",
            add_section: "添加分区",
            section_name_label: "分区名称：",
            add: "添加",
            cancel: "取消",
            enter_name: "请输入名称",
            delete: "删除",
            delete_confirm_tmpl: "删除\"{}\"？",
            browse: "浏览…",
            all_files: "所有文件",
            click_to_input: "点击输入…",
            press_key: "请按键…",
            clear: "清除",
            show: "显示",
            hide: "隐藏",
            file_changed: "配置文件已被外部修改。重新加载将丢弃您当前的编辑内容。继续编辑并保存将覆盖外部的更改。",
            reload: "重新加载",
            keep_editing: "继续编辑",
            window_title: "设置",
        },
        Lang::De => Strings {
            ok: "OK",
            apply: "Übernehmen",
            no_sections: "(keine Abschnitte)",
            add_section: "Abschnitt hinzufügen",
            section_name_label: "Abschnittsname:",
            add: "Hinzufügen",
            cancel: "Abbrechen",
            enter_name: "Bitte einen Namen eingeben",
            delete: "Löschen",
            delete_confirm_tmpl: "\"{}\" löschen?",
            browse: "Durchsuchen…",
            all_files: "Alle Dateien",
            click_to_input: "Klicken zum Eingeben…",
            press_key: "Taste drücken…",
            clear: "Leeren",
            show: "Anzeigen",
            hide: "Ausblenden",
            file_changed: "Die Konfigurationsdatei wurde extern geändert. Beim Neuladen gehen Ihre aktuellen Änderungen verloren. Wenn Sie weiterbearbeiten und speichern, werden die externen Änderungen überschrieben.",
            reload: "Neu laden",
            keep_editing: "Weiterbearbeiten",
            window_title: "Einstellungen",
        },
        Lang::En => Strings {
            ok: "OK",
            apply: "Apply",
            no_sections: "(no sections)",
            add_section: "Add section",
            section_name_label: "Section name:",
            add: "Add",
            cancel: "Cancel",
            enter_name: "Please enter a name",
            delete: "Delete",
            delete_confirm_tmpl: "Delete \"{}\"?",
            browse: "Browse…",
            all_files: "All files",
            click_to_input: "Click to enter…",
            press_key: "Press a key…",
            clear: "Clear",
            show: "Show",
            hide: "Hide",
            file_changed: "The config file was modified externally. Reloading will discard your current edits. Continuing to edit and then saving will overwrite the external changes.",
            reload: "Reload",
            keep_editing: "Keep Editing",
            window_title: "Settings",
        },
        Lang::Fr => Strings {
            ok: "OK",
            apply: "Appliquer",
            no_sections: "(aucune section)",
            add_section: "Ajouter une section",
            section_name_label: "Nom de la section :",
            add: "Ajouter",
            cancel: "Annuler",
            enter_name: "Veuillez entrer un nom",
            delete: "Supprimer",
            delete_confirm_tmpl: "Supprimer \"{}\" ?",
            browse: "Parcourir…",
            all_files: "Tous les fichiers",
            click_to_input: "Cliquer pour saisir…",
            press_key: "Appuyez sur une touche…",
            clear: "Effacer",
            show: "Afficher",
            hide: "Masquer",
            file_changed: "Le fichier de configuration a été modifié en dehors de l'application. Recharger supprimera vos modifications en cours. Continuer à modifier et sauvegarder écrasera les modifications externes.",
            reload: "Recharger",
            keep_editing: "Continuer à modifier",
            window_title: "Préférences",
        },
        Lang::Hi => Strings {
            ok: "ठीक है",
            apply: "लागू करें",
            no_sections: "(कोई अनुभाग नहीं)",
            add_section: "अनुभाग जोड़ें",
            section_name_label: "अनुभाग का नाम:",
            add: "जोड़ें",
            cancel: "रद्द करें",
            enter_name: "कृपया एक नाम दर्ज करें",
            delete: "हटाएं",
            delete_confirm_tmpl: "\"{}\" हटाएं?",
            browse: "ब्राउज़ करें…",
            all_files: "सभी फ़ाइलें",
            click_to_input: "इनपुट के लिए क्लिक करें…",
            press_key: "एक कुंजी दबाएं…",
            clear: "साफ़ करें",
            show: "दिखाएं",
            hide: "छुपाएं",
            file_changed: "कॉन्फ़िग फ़ाइल को बाहरी रूप से संशोधित किया गया। पुनः लोड करने पर आपके वर्तमान संपादन हट जाएंगे। संपादन जारी रखकर सहेजने पर बाहरी परिवर्तन अधिलेखित हो जाएंगे।",
            reload: "पुनः लोड करें",
            keep_editing: "संपादन जारी रखें",
            window_title: "सेटिंग्स",
        },
        Lang::It => Strings {
            ok: "OK",
            apply: "Applica",
            no_sections: "(nessuna sezione)",
            add_section: "Aggiungi sezione",
            section_name_label: "Nome sezione:",
            add: "Aggiungi",
            cancel: "Annulla",
            enter_name: "Inserire un nome",
            delete: "Elimina",
            delete_confirm_tmpl: "Eliminare \"{}\"?",
            browse: "Sfoglia…",
            all_files: "Tutti i file",
            click_to_input: "Clicca per inserire…",
            press_key: "Premi un tasto…",
            clear: "Cancella",
            show: "Mostra",
            hide: "Nascondi",
            file_changed: "Il file di configurazione è stato modificato esternamente. Ricaricare eliminerà le modifiche correnti. Continuare a modificare e salvare sovrascriverà le modifiche esterne.",
            reload: "Ricarica",
            keep_editing: "Continua a modificare",
            window_title: "Impostazioni",
        },
        Lang::Ja => Strings {
            ok: "OK",
            apply: "適用",
            no_sections: "(セクションなし)",
            add_section: "セクションを追加",
            section_name_label: "セクション名:",
            add: "追加",
            cancel: "キャンセル",
            enter_name: "名前を入力してください",
            delete: "削除",
            delete_confirm_tmpl: "「{}」を削除しますか？",
            browse: "参照…",
            all_files: "すべてのファイル",
            click_to_input: "クリックして入力…",
            press_key: "キーを押してください…",
            clear: "クリア",
            show: "表示",
            hide: "隠す",
            file_changed: "設定ファイルが外部で変更されました。再読み込みすると現在の編集内容は失われます。編集を続けて保存すると，外部での変更は上書きされます。",
            reload: "再読み込み",
            keep_editing: "編集を続ける",
            window_title: "設定",
        },
        Lang::Ko => Strings {
            ok: "확인",
            apply: "적용",
            no_sections: "(섹션 없음)",
            add_section: "섹션 추가",
            section_name_label: "섹션 이름:",
            add: "추가",
            cancel: "취소",
            enter_name: "이름을 입력하세요",
            delete: "삭제",
            delete_confirm_tmpl: "\"{}\"을(를) 삭제하시겠습니까?",
            browse: "찾아보기…",
            all_files: "모든 파일",
            click_to_input: "클릭하여 입력…",
            press_key: "키를 누르세요…",
            clear: "지우기",
            show: "표시",
            hide: "숨기기",
            file_changed: "설정 파일이 외부에서 수정되었습니다. 다시 불러오면 현재 편집 내용이 삭제됩니다. 계속 편집하여 저장하면 외부 변경 사항이 덮어씌워집니다.",
            reload: "다시 불러오기",
            keep_editing: "계속 편집",
            window_title: "설정",
        },
        Lang::Nl => Strings {
            ok: "OK",
            apply: "Toepassen",
            no_sections: "(geen secties)",
            add_section: "Sectie toevoegen",
            section_name_label: "Sectienaam:",
            add: "Toevoegen",
            cancel: "Annuleren",
            enter_name: "Voer een naam in",
            delete: "Verwijderen",
            delete_confirm_tmpl: "\"{}\" verwijderen?",
            browse: "Bladeren…",
            all_files: "Alle bestanden",
            click_to_input: "Klik om in te voeren…",
            press_key: "Druk op een toets…",
            clear: "Wissen",
            show: "Tonen",
            hide: "Verbergen",
            file_changed: "Het configuratiebestand is extern gewijzigd. Herladen verwijdert uw huidige wijzigingen. Als u doorgaat met bewerken en opslaat, worden de externe wijzigingen overschreven.",
            reload: "Herladen",
            keep_editing: "Doorgaan met bewerken",
            window_title: "Instellingen",
        },
        Lang::Pt => Strings {
            ok: "OK",
            apply: "Aplicar",
            no_sections: "(sem seções)",
            add_section: "Adicionar seção",
            section_name_label: "Nome da seção:",
            add: "Adicionar",
            cancel: "Cancelar",
            enter_name: "Por favor, insira um nome",
            delete: "Excluir",
            delete_confirm_tmpl: "Excluir \"{}\"?",
            browse: "Procurar…",
            all_files: "Todos os arquivos",
            click_to_input: "Clique para inserir…",
            press_key: "Pressione uma tecla…",
            clear: "Limpar",
            show: "Mostrar",
            hide: "Ocultar",
            file_changed: "O arquivo de configuração foi modificado externamente. Recarregar descartará suas edições atuais. Continuar editando e salvar sobrescreverá as alterações externas.",
            reload: "Recarregar",
            keep_editing: "Continuar editando",
            window_title: "Configurações",
        },
        Lang::Ru => Strings {
            ok: "ОК",
            apply: "Применить",
            no_sections: "(нет разделов)",
            add_section: "Добавить раздел",
            section_name_label: "Название раздела:",
            add: "Добавить",
            cancel: "Отмена",
            enter_name: "Введите имя",
            delete: "Удалить",
            delete_confirm_tmpl: "Удалить \"{}\"?",
            browse: "Обзор…",
            all_files: "Все файлы",
            click_to_input: "Щёлкните для ввода…",
            press_key: "Нажмите клавишу…",
            clear: "Очистить",
            show: "Показать",
            hide: "Скрыть",
            file_changed: "Файл конфигурации был изменён внешней программой. Перезагрузка удалит текущие изменения. Продолжение редактирования с последующим сохранением перезапишет внешние изменения.",
            reload: "Перезагрузить",
            keep_editing: "Продолжить редактирование",
            window_title: "Настройки",
        },
        Lang::Es => Strings {
            ok: "Aceptar",
            apply: "Aplicar",
            no_sections: "(sin secciones)",
            add_section: "Agregar sección",
            section_name_label: "Nombre de sección:",
            add: "Agregar",
            cancel: "Cancelar",
            enter_name: "Por favor, ingrese un nombre",
            delete: "Eliminar",
            delete_confirm_tmpl: "¿Eliminar \"{}\"?",
            browse: "Examinar…",
            all_files: "Todos los archivos",
            click_to_input: "Haga clic para ingresar…",
            press_key: "Presione una tecla…",
            clear: "Borrar",
            show: "Mostrar",
            hide: "Ocultar",
            file_changed: "El archivo de configuración fue modificado externamente. Recargar descartará sus ediciones actuales. Si continúa editando y guarda, los cambios externos serán sobrescritos.",
            reload: "Recargar",
            keep_editing: "Continuar editando",
            window_title: "Ajustes",
        },
        Lang::Sv => Strings {
            ok: "OK",
            apply: "Verkställ",
            no_sections: "(inga avsnitt)",
            add_section: "Lägg till avsnitt",
            section_name_label: "Avsnittets namn:",
            add: "Lägg till",
            cancel: "Avbryt",
            enter_name: "Ange ett namn",
            delete: "Ta bort",
            delete_confirm_tmpl: "Ta bort \"{}\"?",
            browse: "Bläddra…",
            all_files: "Alla filer",
            click_to_input: "Klicka för att ange…",
            press_key: "Tryck på en tangent…",
            clear: "Rensa",
            show: "Visa",
            hide: "Dölj",
            file_changed: "Konfigurationsfilen har ändrats externt. Att ladda om tar bort dina aktuella redigeringar. Om du fortsätter redigera och sparar skrivs de externa ändringarna över.",
            reload: "Ladda om",
            keep_editing: "Fortsätt redigera",
            window_title: "Inställningar",
        },
        Lang::Tr => Strings {
            ok: "Tamam",
            apply: "Uygula",
            no_sections: "(bölüm yok)",
            add_section: "Bölüm ekle",
            section_name_label: "Bölüm adı:",
            add: "Ekle",
            cancel: "İptal",
            enter_name: "Lütfen bir ad girin",
            delete: "Sil",
            delete_confirm_tmpl: "\"{}\" silinsin mi?",
            browse: "Gözat…",
            all_files: "Tüm dosyalar",
            click_to_input: "Girmek için tıklayın…",
            press_key: "Bir tuşa basın…",
            clear: "Temizle",
            show: "Göster",
            hide: "Gizle",
            file_changed: "Yapılandırma dosyası harici olarak değiştirildi. Yeniden yüklemek mevcut düzenlemelerinizi siler. Düzenlemeye devam edip kaydederseniz, harici değişiklikler üzerine yazılır.",
            reload: "Yeniden yükle",
            keep_editing: "Düzenlemeye devam et",
            window_title: "Ayarlar",
        },
        Lang::Vi => Strings {
            ok: "OK",
            apply: "Áp dụng",
            no_sections: "(không có mục)",
            add_section: "Thêm mục",
            section_name_label: "Tên mục:",
            add: "Thêm",
            cancel: "Hủy",
            enter_name: "Vui lòng nhập tên",
            delete: "Xóa",
            delete_confirm_tmpl: "Xóa \"{}\"?",
            browse: "Duyệt…",
            all_files: "Tất cả tệp",
            click_to_input: "Nhấp để nhập…",
            press_key: "Nhấn phím…",
            clear: "Xóa",
            show: "Hiện",
            hide: "Ẩn",
            file_changed: "Tệp cấu hình đã bị sửa đổi bên ngoài. Tải lại sẽ xóa các chỉnh sửa hiện tại của bạn. Tiếp tục chỉnh sửa và lưu sẽ ghi đè các thay đổi bên ngoài.",
            reload: "Tải lại",
            keep_editing: "Tiếp tục chỉnh sửa",
            window_title: "Cài đặt",
        },
    }
}

/// `str::replace(template, "{}", name)`: each `"{}"` of `template`, from
/// left to right, replaced by `name`.
pub open spec fn fill_placeholder(template: Seq<char>, name: Seq<char>) -> Seq<char>
    decreases template.len(),
{
    if template.len() == 0 {
        Seq::empty()
    } else if template.len() >= 2 && template[0] == '{' && template[1] == '}' {
        name + fill_placeholder(template.skip(2), name)
    } else {
        seq![template[0]] + fill_placeholder(template.skip(1), name)
    }
}

impl Strings {
    /// The delete-confirmation template, with `{}` where the name goes.
    pub open spec fn delete_confirm_template(self) -> Seq<char> {
        self.delete_confirm_tmpl@
    }

    /// Builds the delete confirmation message for `name`.
    pub fn delete_confirm(&self, name: &str) -> (r: String)
        ensures
            r@ == fill_placeholder(self.delete_confirm_template(), name@),
    {
        let tmpl = self.delete_confirm_tmpl;
        let ghost t = tmpl@;
        let n = tmpl.unicode_len();
        let mut out = String::new();
        let mut i: usize = 0;
        assert(t.subrange(0, n as int) =~= t);
        while i < n
            invariant
                n == t.len(),
                t == tmpl@,
                i <= n,
                fill_placeholder(t, name@) == out@ + fill_placeholder(
                    t.subrange(i as int, n as int),
                    name@,
                ),
            decreases n - i,
        {
            let ghost rest = t.subrange(i as int, n as int);
            let c = tmpl.get_char(i);
            assert(rest[0] == c);
            if c == '{' && i + 1 < n && tmpl.get_char(i + 1) == '}' {
                assert(rest[1] == '}');
                assert(rest.skip(2) =~= t.subrange(i + 2, n as int));
                let ghost before = out@;
                out.append(name);
                assert(before + (name@ + fill_placeholder(t.subrange(i + 2, n as int), name@))
                    =~= out@ + fill_placeholder(t.subrange(i + 2, n as int), name@));
                i = i + 2;
            } else {
                let piece = tmpl.substring_char(i, i + 1);
                assert(piece@ =~= seq![c]);
                assert(rest.skip(1) =~= t.subrange(i + 1, n as int));
                let ghost before = out@;
                out.append(piece);
                assert(before + (seq![c] + fill_placeholder(t.subrange(i + 1, n as int), name@))
                    =~= out@ + fill_placeholder(t.subrange(i + 1, n as int), name@));
                i = i + 1;
            }
        }
        assert(t.subrange(n as int, n as int).len() == 0);
        assert(out@ + Seq::<char>::empty() =~= out@);
        out
    }
}


/// The override `o` if there is one, else `base`.
pub open spec fn override_or(o: Option<String>, base: &str) -> Seq<char> {
    match o {
        Some(s) => s@,
        None => base@,
    }
}

/// Whether `ov` overrides no string.
pub open spec fn no_overrides(ov: UiStrings) -> bool {
    &&& ov.ok is None
    &&& ov.apply is None
    &&& ov.no_sections is None
    &&& ov.add_section is None
    &&& ov.section_name_label is None
    &&& ov.add is None
    &&& ov.cancel is None
    &&& ov.enter_name is None
    &&& ov.delete is None
    &&& ov.delete_confirm is None
    &&& ov.browse is None
    &&& ov.all_files is None
    &&& ov.click_to_input is None
    &&& ov.press_key is None
    &&& ov.clear is None
    &&& ov.show is None
    &&& ov.hide is None
    &&& ov.file_changed is None
    &&& ov.reload is None
    &&& ov.keep_editing is None
    &&& ov.window_title is None
}

/// `r` is `base` with each string that `ov` overrides replaced.
pub open spec fn merged(r: Strings, base: Strings, ov: UiStrings) -> bool {
    &&& r.ok@ == override_or(ov.ok, base.ok)
    &&& r.apply@ == override_or(ov.apply, base.apply)
    &&& r.no_sections@ == override_or(ov.no_sections, base.no_sections)
    &&& r.add_section@ == override_or(ov.add_section, base.add_section)
    &&& r.section_name_label@ == override_or(ov.section_name_label, base.section_name_label)
    &&& r.add@ == override_or(ov.add, base.add)
    &&& r.cancel@ == override_or(ov.cancel, base.cancel)
    &&& r.enter_name@ == override_or(ov.enter_name, base.enter_name)
    &&& r.delete@ == override_or(ov.delete, base.delete)
    &&& r.delete_confirm_template() == match ov.delete_confirm {
        Some(s) => s@,
        None => base.delete_confirm_template(),
    }
    &&& r.browse@ == override_or(ov.browse, base.browse)
    &&& r.all_files@ == override_or(ov.all_files, base.all_files)
    &&& r.click_to_input@ == override_or(ov.click_to_input, base.click_to_input)
    &&& r.press_key@ == override_or(ov.press_key, base.press_key)
    &&& r.clear@ == override_or(ov.clear, base.clear)
    &&& r.show@ == override_or(ov.show, base.show)
    &&& r.hide@ == override_or(ov.hide, base.hide)
    &&& r.file_changed@ == override_or(ov.file_changed, base.file_changed)
    &&& r.reload@ == override_or(ov.reload, base.reload)
    &&& r.keep_editing@ == override_or(ov.keep_editing, base.keep_editing)
    &&& r.window_title@ == override_or(ov.window_title, base.window_title)
}

/// `String::leak`: the string's buffer, kept for the rest of the process.
/// Trusted to hand back the same characters.
#[verifier::external_body]
fn leak_string(s: String) -> (r: &'static str)
    ensures
        r@ == s@,
{
    s.leak()
}

/// The override if there is one (kept for the rest of the process), else `base`.
fn pick(o: &Option<String>, base: &'static str) -> (r: &'static str)
    ensures
        r@ == override_or(*o, base),
        o is None ==> r == base,
{
    match o {
        Some(s) => leak_string(s.clone()),
        None => base,
    }
}

/// Applies the schema's overrides on top of a built-in string table; with no
/// overrides the table comes back as it was.
fn merge(base: Strings, ov: &UiStrings) -> (r: Strings)
    ensures
        merged(r, base, *ov),
        no_overrides(*ov) ==> r == base,
{
    if ov.ok.is_none() && ov.apply.is_none() && ov.no_sections.is_none() && ov.add_section.is_none() && ov.section_name_label.is_none() && ov.add.is_none() && ov.cancel.is_none() && ov.enter_name.is_none() && ov.delete.is_none() && ov.delete_confirm.is_none() && ov.browse.is_none() && ov.all_files.is_none() && ov.click_to_input.is_none() && ov.press_key.is_none() && ov.clear.is_none() && ov.show.is_none() && ov.hide.is_none() && ov.file_changed.is_none() && ov.reload.is_none() && ov.keep_editing.is_none() && ov.window_title.is_none() {
        return base;
    }
    Strings {
        ok: pick(&ov.ok, base.ok),
        apply: pick(&ov.apply, base.apply),
        no_sections: pick(&ov.no_sections, base.no_sections),
        add_section: pick(&ov.add_section, base.add_section),
        section_name_label: pick(&ov.section_name_label, base.section_name_label),
        add: pick(&ov.add, base.add),
        cancel: pick(&ov.cancel, base.cancel),
        enter_name: pick(&ov.enter_name, base.enter_name),
        delete: pick(&ov.delete, base.delete),
        delete_confirm_tmpl: pick(&ov.delete_confirm, base.delete_confirm_tmpl),
        browse: pick(&ov.browse, base.browse),
        all_files: pick(&ov.all_files, base.all_files),
        click_to_input: pick(&ov.click_to_input, base.click_to_input),
        press_key: pick(&ov.press_key, base.press_key),
        clear: pick(&ov.clear, base.clear),
        show: pick(&ov.show, base.show),
        hide: pick(&ov.hide, base.hide),
        file_changed: pick(&ov.file_changed, base.file_changed),
        reload: pick(&ov.reload, base.reload),
        keep_editing: pick(&ov.keep_editing, base.keep_editing),
        window_title: pick(&ov.window_title, base.window_title),
    }
}

/// The string table for `lang` with the schema's overrides applied. The
/// caller keeps it as the process-wide table that `t` hands out.
pub fn init(lang: Lang, ui_strings: &UiStrings) -> (r: Strings)
    ensures
        merged(r, builtin_table(lang), *ui_strings),
        no_overrides(*ui_strings) ==> r == builtin_table(lang),
{
    merge(builtin(lang), ui_strings)
}

/// The active string table: the one `init` built, or English when there is
/// none yet.
pub fn t(active: Option<Strings>) -> (r: Strings)
    ensures
        r == match active {
            Some(s) => s,
            None => builtin_table(Lang::En),
        },
{
    match active {
        Some(s) => s,
        None => builtin(Lang::En),
    }
}

/// The active language code (`"ja"`, `"en"`, ...): that of the language
/// chosen at start-up, or `"en"` when none was.
pub fn active_lang_code(active: Option<Lang>) -> (r: &'static str)
    ensures
        r@ == lang_code(
            match active {
                Some(l) => l,
                None => Lang::En,
            },
        ),
{
    match active {
        Some(l) => l.code(),
        None => Lang::En.code(),
    }
}


proof fn lemma_trim_end_keeps(s: Seq<char>, m: int)
    requires
        1 <= m <= s.len(),
        !is_white_space(s[m - 1]),
    ensures
        exists|j: int| m <= j <= s.len() && trim_end(s) == #[trigger] s.subrange(0, j),
    decreases s.len(),
{
    if s.len() > 0 && is_white_space(s.last()) {
        assert(m < s.len());
        lemma_trim_end_keeps(s.drop_last(), m);
        let j = choose|j: int| m <= j <= s.len() - 1 && trim_end(s.drop_last()) == #[trigger] s.drop_last().subrange(0, j);
        assert(s.drop_last().subrange(0, j) =~= s.subrange(0, j));
    } else {
        assert(s.subrange(0, s.len() as int) =~= s);
    }
}

/// A language's own code parses back to that language.
pub proof fn law_code_parses_back(l: Lang)
    ensures
        lang_of_tag(lang_code(l)) == Some(l),
{
    let c = lang_code(l);
    reveal_with_fuel(trim_start, 2);
    reveal_with_fuel(trim_end, 2);
    reveal_with_fuel(primary_subtag, 3);
    assert(trim_start(c) == c);
    assert(trim_end(c) == c);
    let x = lower(c);
    assert(x =~= c);
    assert(x.drop_first().drop_first() =~= Seq::<char>::empty());
    assert(primary_subtag(x) =~= c);
}

/// A language fixed by its own code is the language resolved, whatever the
/// parent application and the operating system prefer.
pub proof fn law_fixed_code_resolves(code: String, l: Lang, parent_lang: Option<&str>, os_tags: Seq<Seq<char>>)
    requires
        code@ == lang_code(l),
    ensures
        resolved_lang(LangMode::Fixed(code), parent_lang, os_tags) == l,
{
    law_code_parses_back(l);
}

/// Only the primary subtag decides: whatever region or script follows a
/// `'-'` or `'_'` after a language's code, the tag names that language.
pub proof fn law_primary_subtag_decides(l: Lang, sep: char, rest: Seq<char>)
    requires
        sep == '-' || sep == '_',
    ensures
        lang_of_tag(lang_code(l) + seq![sep] + rest) == Some(l),
{
    let c = lang_code(l);
    let s = c + seq![sep] + rest;
    assert(s[0] == c[0] && s[1] == c[1] && s[2] == sep);
    assert(trim_start(s) == s);
    lemma_trim_end_keeps(s, 3);
    let j = choose|j: int| 3 <= j <= s.len() && trim_end(s) == #[trigger] s.subrange(0, j);
    let t = s.subrange(0, j);
    assert(trim(s) == t);
    let x = lower(t);
    assert(x.len() == j);
    assert(x[0] == c[0] && x[1] == c[1] && x[2] == sep);
    assert(x != seq!['c']) by {
        if x == seq!['c'] {
            assert(x.len() == 1);
        }
    }
    assert(x != seq!['p', 'o', 's', 'i', 'x']) by {
        if x == seq!['p', 'o', 's', 'i', 'x'] {
            assert(x[2] == seq!['p', 'o', 's', 'i', 'x'][2]);
        }
    }
    let x1 = x.drop_first();
    let x2 = x1.drop_first();
    assert(x1[0] == c[1]);
    assert(x2[0] == sep);
    assert(primary_subtag(x2) == Seq::<char>::empty());
    assert(primary_subtag(x1) == seq![c[1]] + primary_subtag(x2));
    assert(primary_subtag(x) == seq![c[0]] + primary_subtag(x1));
    assert(primary_subtag(x) =~= c);
}


/// Every character of `s` is white space.
pub open spec fn all_white_space(s: Seq<char>) -> bool {
    forall|i: int| 0 <= i < s.len() ==> is_white_space(#[trigger] s[i])
}

proof fn lemma_trim_start_skips(pre: Seq<char>, s: Seq<char>)
    requires
        all_white_space(pre),
    ensures
        trim_start(pre + s) == trim_start(s),
    decreases pre.len(),
{
    if pre.len() > 0 {
        assert((pre + s)[0] == pre[0]);
        assert((pre + s).drop_first() =~= pre.drop_first() + s);
        lemma_trim_start_skips(pre.drop_first(), s);
    } else {
        assert(pre + s =~= s);
    }
}

proof fn lemma_trim_end_skips(s: Seq<char>, post: Seq<char>)
    requires
        all_white_space(post),
    ensures
        trim_end(s + post) == trim_end(s),
    decreases post.len(),
{
    if post.len() > 0 {
        assert((s + post).last() == post.last());
        assert((s + post).drop_last() =~= s + post.drop_last());
        lemma_trim_end_skips(s, post.drop_last());
    } else {
        assert(s + post =~= s);
    }
}

proof fn lemma_trim_start_append(s: Seq<char>, post: Seq<char>)
    requires
        all_white_space(post),
    ensures
        trim_start(s).len() > 0 ==> trim_start(s + post) == trim_start(s) + post,
        trim_start(s).len() == 0 ==> trim_start(s + post).len() == 0,
    decreases s.len(),
{
    if s.len() == 0 {
        assert(s + post =~= post);
        lemma_trim_start_skips(post, Seq::empty());
        assert(post + Seq::<char>::empty() =~= post);
    } else {
        assert((s + post)[0] == s[0]);
        assert((s + post).drop_first() =~= s.drop_first() + post);
        if is_white_space(s[0]) {
            lemma_trim_start_append(s.drop_first(), post);
        }
    }
}

/// White space around a tag does not change the language it names.
pub proof fn law_surrounding_white_space_ignored(pre: Seq<char>, tag: Seq<char>, post: Seq<char>)
    requires
        all_white_space(pre),
        all_white_space(post),
    ensures
        lang_of_tag(pre + tag + post) == lang_of_tag(tag),
{
    assert(pre + tag + post =~= pre + (tag + post));
    lemma_trim_start_skips(pre, tag + post);
    lemma_trim_start_append(tag, post);
    let ts = trim_start(tag);
    if ts.len() > 0 {
        lemma_trim_end_skips(ts, post);
    } else {
        assert(trim_end(trim_start(tag + post)) == trim_start(tag + post));
        assert(trim_end(ts) == ts);
        assert(trim_start(tag + post) =~= ts);
    }
    assert(trim(pre + tag + post) == trim(tag));
}

proof fn lemma_lower_char_white_space(c: char)
    ensures
        is_white_space(ascii_lower(c)) == is_white_space(c),
        ascii_lower(ascii_lower(c)) == ascii_lower(c),
{
}

proof fn lemma_trim_start_lower(s: Seq<char>)
    ensures
        trim_start(lower(s)) == lower(trim_start(s)),
    decreases s.len(),
{
    if s.len() > 0 {
        lemma_lower_char_white_space(s[0]);
        assert(lower(s)[0] == ascii_lower(s[0]));
        assert(lower(s).drop_first() =~= lower(s.drop_first()));
        lemma_trim_start_lower(s.drop_first());
    } else {
        assert(lower(s) =~= s);
    }
}

proof fn lemma_trim_end_lower(s: Seq<char>)
    ensures
        trim_end(lower(s)) == lower(trim_end(s)),
    decreases s.len(),
{
    if s.len() > 0 {
        lemma_lower_char_white_space(s.last());
        assert(lower(s).last() == ascii_lower(s.last()));
        assert(lower(s).drop_last() =~= lower(s.drop_last()));
        lemma_trim_end_lower(s.drop_last());
    } else {
        assert(lower(s) =~= s);
    }
}

/// ASCII letter case does not change the language a tag names.
pub proof fn law_letter_case_ignored(tag: Seq<char>)
    ensures
        lang_of_tag(lower(tag)) == lang_of_tag(tag),
{
    lemma_trim_start_lower(tag);
    lemma_trim_end_lower(trim_start(tag));
    let t = trim(tag);
    assert(trim(lower(tag)) == lower(t));
    assert forall|i: int| 0 <= i < t.len() implies lower(lower(t))[i] == lower(t)[i] by {
        lemma_lower_char_white_space(t[i]);
    }
    assert(lower(lower(t)) =~= lower(t));
}


proof fn lemma_seq_differ(a: Seq<char>, b: Seq<char>, i: int)
    requires
        0 <= i < a.len(),
        i >= b.len() || a[i] != b[i],
    ensures
        a != b,
{
}

/// The number of `"{}"` placeholders in `t`, counted as `fill_placeholder`
/// meets them.
pub open spec fn placeholder_count(t: Seq<char>) -> nat
    decreases t.len(),
{
    if t.len() == 0 {
        0
    } else if t.len() >= 2 && t[0] == '{' && t[1] == '}' {
        1 + placeholder_count(t.skip(2))
    } else {
        placeholder_count(t.skip(1))
    }
}

/// Every string of `s` is non-empty, its delete template has exactly one
/// placeholder, and the buttons that stand side by side carry different
/// labels.
pub open spec fn table_well_formed(s: Strings) -> bool {
    &&& s.ok@ != s.apply@
    &&& s.ok@ != s.cancel@
    &&& s.apply@ != s.cancel@
    &&& s.add@ != s.cancel@
    &&& s.delete@ != s.cancel@
    &&& s.show@ != s.hide@
    &&& s.reload@ != s.keep_editing@
    &&& s.ok@.len() > 0
    &&& s.apply@.len() > 0
    &&& s.no_sections@.len() > 0
    &&& s.add_section@.len() > 0
    &&& s.section_name_label@.len() > 0
    &&& s.add@.len() > 0
    &&& s.cancel@.len() > 0
    &&& s.enter_name@.len() > 0
    &&& s.delete@.len() > 0
    &&& s.delete_confirm_tmpl@.len() > 0
    &&& s.browse@.len() > 0
    &&& s.all_files@.len() > 0
    &&& s.click_to_input@.len() > 0
    &&& s.press_key@.len() > 0
    &&& s.clear@.len() > 0
    &&& s.show@.len() > 0
    &&& s.hide@.len() > 0
    &&& s.file_changed@.len() > 0
    &&& s.reload@.len() > 0
    &&& s.keep_editing@.len() > 0
    &&& s.window_title@.len() > 0
    &&& placeholder_count(s.delete_confirm_tmpl@) == 1
}

proof fn lemma_fill_contains_name(t: Seq<char>, name: Seq<char>)
    requires
        placeholder_count(t) >= 1,
    ensures
        exists|i: int|
            0 <= i && i + name.len() <= fill_placeholder(t, name).len()
                && #[trigger] fill_placeholder(t, name).subrange(i, i + name.len()) == name,
    decreases t.len(),
{
    let f = fill_placeholder(t, name);
    if t.len() >= 2 && t[0] == '{' && t[1] == '}' {
        assert(f == name + fill_placeholder(t.skip(2), name));
        assert(f.subrange(0, name.len() as int) =~= name);
        assert(0int + name.len() <= f.len() && f.subrange(0int, 0int + name.len()) == name);
    } else {
        lemma_fill_contains_name(t.skip(1), name);
        let g = fill_placeholder(t.skip(1), name);
        let j = choose|j: int|
            0 <= j && j + name.len() <= g.len() && #[trigger] g.subrange(j, j + name.len()) == name;
        assert(f =~= seq![t[0]] + g);
        assert(f.subrange(j + 1, j + 1 + name.len()) =~= g.subrange(j, j + name.len()));
        assert(j + 1 + name.len() <= f.len() && f.subrange(j + 1, j + 1 + name.len()) == name);
    }
}

proof fn lemma_en_table()
    ensures
        table_well_formed(builtin_table(Lang::En)),
{
    reveal_strlit("OK");
    reveal_strlit("Apply");
    reveal_strlit("(no sections)");
    reveal_strlit("Add section");
    reveal_strlit("Section name:");
    reveal_strlit("Add");
    reveal_strlit("Cancel");
    reveal_strlit("Please enter a name");
    reveal_strlit("Delete");
    reveal_strlit("Delete \"{}\"?");
    reveal_strlit("Browse…");
    reveal_strlit("All files");
    reveal_strlit("Click to enter…");
    reveal_strlit("Press a key…");
    reveal_strlit("Clear");
    reveal_strlit("Show");
    reveal_strlit("Hide");
    reveal_strlit("The config file was modified externally. Reloading will discard your current edits. Continuing to edit and then saving will overwrite the external changes.");
    reveal_strlit("Reload");
    reveal_strlit("Keep Editing");
    reveal_strlit("Settings");
    lemma_seq_differ(builtin_table(Lang::En).apply@, builtin_table(Lang::En).ok@, 0);
    lemma_seq_differ(builtin_table(Lang::En).cancel@, builtin_table(Lang::En).ok@, 0);
    lemma_seq_differ(builtin_table(Lang::En).cancel@, builtin_table(Lang::En).apply@, 0);
    lemma_seq_differ(builtin_table(Lang::En).cancel@, builtin_table(Lang::En).add@, 0);
    lemma_seq_differ(builtin_table(Lang::En).delete@, builtin_table(Lang::En).cancel@, 0);
    lemma_seq_differ(builtin_table(Lang::En).show@, builtin_table(Lang::En).hide@, 0);
    lemma_seq_differ(builtin_table(Lang::En).keep_editing@, builtin_table(Lang::En).reload@, 0);
    reveal_with_fuel(placeholder_count, 40);
}

proof fn lemma_ar_table()
    ensures
        table_well_formed(builtin_table(Lang::Ar)),
{
    reveal_strlit("موافق");
    reveal_strlit("تطبيق");
    reveal_strlit("(لا توجد أقسام)");
    reveal_strlit("إضافة قسم");
    reveal_strlit("اسم القسم:");
    reveal_strlit("إضافة");
    reveal_strlit("إلغاء");
    reveal_strlit("الرجاء إدخال اسم");
    reveal_strlit("حذف");
    reveal_strlit("هل تريد حذف \"{}\"؟");
    reveal_strlit("استعراض…");
    reveal_strlit("كل الملفات");
    reveal_strlit("انقر للإدخال…");
    reveal_strlit("اضغط مفتاحًا…");
    reveal_strlit("مسح");
    reveal_strlit("إظهار");
    reveal_strlit("إخفاء");
    reveal_strlit("تم تعديل ملف الإعدادات خارجيًا. سيؤدي إعادة التحميل إلى تجاهل تعديلاتك الحالية. إذا واصلت التعديل وحفظت، ستُستبدل التغييرات الخارجية.");
    reveal_strlit("إعادة تحميل");
    reveal_strlit("مواصلة التعديل");
    reveal_strlit("الإعدادات");
    lemma_seq_differ(builtin_table(Lang::Ar).ok@, builtin_table(Lang::Ar).apply@, 0);
    lemma_seq_differ(builtin_table(Lang::Ar).ok@, builtin_table(Lang::Ar).cancel@, 0);
    lemma_seq_differ(builtin_table(Lang::Ar).apply@, builtin_table(Lang::Ar).cancel@, 0);
    lemma_seq_differ(builtin_table(Lang::Ar).add@, builtin_table(Lang::Ar).cancel@, 1);
    lemma_seq_differ(builtin_table(Lang::Ar).cancel@, builtin_table(Lang::Ar).delete@, 0);
    lemma_seq_differ(builtin_table(Lang::Ar).show@, builtin_table(Lang::Ar).hide@, 1);
    lemma_seq_differ(builtin_table(Lang::Ar).keep_editing@, builtin_table(Lang::Ar).reload@, 0);
    reveal_with_fuel(placeholder_count, 40);
}

proof fn lemma_zh_table()
    ensures
        table_well_formed(builtin_table(Lang::Zh)),
{
    reveal_strlit("确定");
    reveal_strlit("应用");
    reveal_strlit("（无分区）");
    reveal_strlit("添加分区");
    reveal_strlit("分区名称：");
    reveal_strlit("添加");
    reveal_strlit("取消");
    reveal_strlit("请输入名称");
    reveal_strlit("删除");
    reveal_strlit("删除\"{}\"？");
    reveal_strlit("浏览…");
    reveal_strlit("所有文件");
    reveal_strlit("点击输入…");
    reveal_strlit("请按键…");
    reveal_strlit("清除");
    reveal_strlit("显示");
    reveal_strlit("隐藏");
    reveal_strlit("配置文件已被外部修改。重新加载将丢弃您当前的编辑内容。继续编辑并保存将覆盖外部的更改。");
    reveal_strlit("重新加载");
    reveal_strlit("继续编辑");
    reveal_strlit("设置");
    lemma_seq_differ(builtin_table(Lang::Zh).ok@, builtin_table(Lang::Zh).apply@, 0);
    lemma_seq_differ(builtin_table(Lang::Zh).ok@, builtin_table(Lang::Zh).cancel@, 0);
    lemma_seq_differ(builtin_table(Lang::Zh).apply@, builtin_table(Lang::Zh).cancel@, 0);
    lemma_seq_differ(builtin_table(Lang::Zh).add@, builtin_table(Lang::Zh).cancel@, 0);
    lemma_seq_differ(builtin_table(Lang::Zh).delete@, builtin_table(Lang::Zh).cancel@, 0);
    lemma_seq_differ(builtin_table(Lang::Zh).show@, builtin_table(Lang::Zh).hide@, 0);
    lemma_seq_differ(builtin_table(Lang::Zh).reload@, builtin_table(Lang::Zh).keep_editing@, 0);
    reveal_with_fuel(placeholder_count, 40);
}

proof fn lemma_de_table()
    ensures
        table_well_formed(builtin_table(Lang::De)),
{
    reveal_strlit("OK");
    reveal_strlit("Übernehmen");
    reveal_strlit("(keine Abschnitte)");
    reveal_strlit("Abschnitt hinzufügen");
    reveal_strlit("Abschnittsname:");
    reveal_strlit("Hinzufügen");
    reveal_strlit("Abbrechen");
    reveal_strlit("Bitte einen Namen eingeben");
    reveal_strlit("Löschen");
    reveal_strlit("\"{}\" löschen?");
    reveal_strlit("Durchsuchen…");
    reveal_strlit("Alle Dateien");
    reveal_strlit("Klicken zum Eingeben…");
    reveal_strlit("Taste drücken…");
    reveal_strlit("Leeren");
    reveal_strlit("Anzeigen");
    reveal_strlit("Ausblenden");
    reveal_strlit("Die Konfigurationsdatei wurde extern geändert. Beim Neuladen gehen Ihre aktuellen Änderungen verloren. Wenn Sie weiterbearbeiten und speichern, werden die externen Änderungen überschrieben.");
    reveal_strlit("Neu laden");
    reveal_strlit("Weiterbearbeiten");
    reveal_strlit("Einstellungen");
    lemma_seq_differ(builtin_table(Lang::De).apply@, builtin_table(Lang::De).ok@, 0);
    lemma_seq_differ(builtin_table(Lang::De).cancel@, builtin_table(Lang::De).ok@, 0);
    lemma_seq_differ(builtin_table(Lang::De).apply@, builtin_table(Lang::De).cancel@, 0);
    lemma_seq_differ(builtin_table(Lang::De).add@, builtin_table(Lang::De).cancel@, 0);
    lemma_seq_differ(builtin_table(Lang::De).cancel@, builtin_table(Lang::De).delete@, 0);
    lemma_seq_differ(builtin_table(Lang::De).hide@, builtin_table(Lang::De).show@, 1);
    lemma_seq_differ(builtin_table(Lang::De).keep_editing@, builtin_table(Lang::De).reload@, 0);
    reveal_with_fuel(placeholder_count, 40);
}

proof fn lemma_fr_table()
    ensures
        table_well_formed(builtin_table(Lang::Fr)),
{
    reveal_strlit("OK");
    reveal_strlit("Appliquer");
    reveal_strlit("(aucune section)");
    reveal_strlit("Ajouter une section");
    reveal_strlit("Nom de la section :");
    reveal_strlit("Ajouter");
    reveal_strlit("Annuler");
    reveal_strlit("Veuillez entrer un nom");
    reveal_strlit("Supprimer");
    reveal_strlit("Supprimer \"{}\" ?");
    reveal_strlit("Parcourir…");
    reveal_strlit("Tous les fichiers");
    reveal_strlit("Cliquer pour saisir…");
    reveal_strlit("Appuyez sur une touche…");
    reveal_strlit("Effacer");
    reveal_strlit("Afficher");
    reveal_strlit("Masquer");
    reveal_strlit("Le fichier de configuration a été modifié en dehors de l'application. Recharger supprimera vos modifications en cours. Continuer à modifier et sauvegarder écrasera les modifications externes.");
    reveal_strlit("Recharger");
    reveal_strlit("Continuer à modifier");
    reveal_strlit("Préférences");
    lemma_seq_differ(builtin_table(Lang::Fr).apply@, builtin_table(Lang::Fr).ok@, 0);
    lemma_seq_differ(builtin_table(Lang::Fr).cancel@, builtin_table(Lang::Fr).ok@, 0);
    lemma_seq_differ(builtin_table(Lang::Fr).apply@, builtin_table(Lang::Fr).cancel@, 1);
    lemma_seq_differ(builtin_table(Lang::Fr).add@, builtin_table(Lang::Fr).cancel@, 1);
    lemma_seq_differ(builtin_table(Lang::Fr).delete@, builtin_table(Lang::Fr).cancel@, 0);
    lemma_seq_differ(builtin_table(Lang::Fr).show@, builtin_table(Lang::Fr).hide@, 0);
    lemma_seq_differ(builtin_table(Lang::Fr).keep_editing@, builtin_table(Lang::Fr).reload@, 0);
    reveal_with_fuel(placeholder_count, 40);
}

proof fn lemma_hi_table()
    ensures
        table_well_formed(builtin_table(Lang::Hi)),
{
    reveal_strlit("ठीक है");
    reveal_strlit("लागू करें");
    reveal_strlit("(कोई अनुभाग नहीं)");
    reveal_strlit("अनुभाग जोड़ें");
    reveal_strlit("अनुभाग का नाम:");
    reveal_strlit("जोड़ें");
    reveal_strlit("रद्द करें");
    reveal_strlit("कृपया एक नाम दर्ज करें");
    reveal_strlit("हटाएं");
    reveal_strlit("\"{}\" हटाएं?");
    reveal_strlit("ब्राउज़ करें…");
    reveal_strlit("सभी फ़ाइलें");
    reveal_strlit("इनपुट के लिए क्लिक करें…");
    reveal_strlit("एक कुंजी दबाएं…");
    reveal_strlit("साफ़ करें");
    reveal_strlit("दिखाएं");
    reveal_strlit("छुपाएं");
    reveal_strlit("कॉन्फ़िग फ़ाइल को बाहरी रूप से संशोधित किया गया। पुनः लोड करने पर आपके वर्तमान संपादन हट जाएंगे। संपादन जारी रखकर सहेजने पर बाहरी परिवर्तन अधिलेखित हो जाएंगे।");
    reveal_strlit("पुनः लोड करें");
    reveal_strlit("संपादन जारी रखें");
    reveal_strlit("सेटिंग्स");
    lemma_seq_differ(builtin_table(Lang::Hi).apply@, builtin_table(Lang::Hi).ok@, 0);
    lemma_seq_differ(builtin_table(Lang::Hi).cancel@, builtin_table(Lang::Hi).ok@, 0);
    lemma_seq_differ(builtin_table(Lang::Hi).apply@, builtin_table(Lang::Hi).cancel@, 0);
    lemma_seq_differ(builtin_table(Lang::Hi).cancel@, builtin_table(Lang::Hi).add@, 0);
    lemma_seq_differ(builtin_table(Lang::Hi).cancel@, builtin_table(Lang::Hi).delete@, 0);
    lemma_seq_differ(builtin_table(Lang::Hi).show@, builtin_table(Lang::Hi).hide@, 0);
    lemma_seq_differ(builtin_table(Lang::Hi).keep_editing@, builtin_table(Lang::Hi).reload@, 0);
    reveal_with_fuel(placeholder_count, 40);
}

proof fn lemma_it_table()
    ensures
        table_well_formed(builtin_table(Lang::It)),
{
    reveal_strlit("OK");
    reveal_strlit("Applica");
    reveal_strlit("(nessuna sezione)");
    reveal_strlit("Aggiungi sezione");
    reveal_strlit("Nome sezione:");
    reveal_strlit("Aggiungi");
    reveal_strlit("Annulla");
    reveal_strlit("Inserire un nome");
    reveal_strlit("Elimina");
    reveal_strlit("Eliminare \"{}\"?");
    reveal_strlit("Sfoglia…");
    reveal_strlit("Tutti i file");
    reveal_strlit("Clicca per inserire…");
    reveal_strlit("Premi un tasto…");
    reveal_strlit("Cancella");
    reveal_strlit("Mostra");
    reveal_strlit("Nascondi");
    reveal_strlit("Il file di configurazione è stato modificato esternamente. Ricaricare eliminerà le modifiche correnti. Continuare a modificare e salvare sovrascriverà le modifiche esterne.");
    reveal_strlit("Ricarica");
    reveal_strlit("Continua a modificare");
    reveal_strlit("Impostazioni");
    lemma_seq_differ(builtin_table(Lang::It).apply@, builtin_table(Lang::It).ok@, 0);
    lemma_seq_differ(builtin_table(Lang::It).cancel@, builtin_table(Lang::It).ok@, 0);
    lemma_seq_differ(builtin_table(Lang::It).apply@, builtin_table(Lang::It).cancel@, 1);
    lemma_seq_differ(builtin_table(Lang::It).add@, builtin_table(Lang::It).cancel@, 1);
    lemma_seq_differ(builtin_table(Lang::It).delete@, builtin_table(Lang::It).cancel@, 0);
    lemma_seq_differ(builtin_table(Lang::It).hide@, builtin_table(Lang::It).show@, 0);
    lemma_seq_differ(builtin_table(Lang::It).keep_editing@, builtin_table(Lang::It).reload@, 0);
    reveal_with_fuel(placeholder_count, 40);
}

proof fn lemma_ja_table()
    ensures
        table_well_formed(builtin_table(Lang::Ja)),
{
    reveal_strlit("OK");
    reveal_strlit("適用");
    reveal_strlit("(セクションなし)");
    reveal_strlit("セクションを追加");
    reveal_strlit("セクション名:");
    reveal_strlit("追加");
    reveal_strlit("キャンセル");
    reveal_strlit("名前を入力してください");
    reveal_strlit("削除");
    reveal_strlit("「{}」を削除しますか？");
    reveal_strlit("参照…");
    reveal_strlit("すべてのファイル");
    reveal_strlit("クリックして入力…");
    reveal_strlit("キーを押してください…");
    reveal_strlit("クリア");
    reveal_strlit("表示");
    reveal_strlit("隠す");
    reveal_strlit("設定ファイルが外部で変更されました。再読み込みすると現在の編集内容は失われます。編集を続けて保存すると，外部での変更は上書きされます。");
    reveal_strlit("再読み込み");
    reveal_strlit("編集を続ける");
    reveal_strlit("設定");
    lemma_seq_differ(builtin_table(Lang::Ja).ok@, builtin_table(Lang::Ja).apply@, 0);
    lemma_seq_differ(builtin_table(Lang::Ja).cancel@, builtin_table(Lang::Ja).ok@, 0);
    lemma_seq_differ(builtin_table(Lang::Ja).cancel@, builtin_table(Lang::Ja).apply@, 0);
    lemma_seq_differ(builtin_table(Lang::Ja).cancel@, builtin_table(Lang::Ja).add@, 0);
    lemma_seq_differ(builtin_table(Lang::Ja).cancel@, builtin_table(Lang::Ja).delete@, 0);
    lemma_seq_differ(builtin_table(Lang::Ja).show@, builtin_table(Lang::Ja).hide@, 0);
    lemma_seq_differ(builtin_table(Lang::Ja).keep_editing@, builtin_table(Lang::Ja).reload@, 0);
    reveal_with_fuel(placeholder_count, 40);
}

proof fn lemma_ko_table()
    ensures
        table_well_formed(builtin_table(Lang::Ko)),
{
    reveal_strlit("확인");
    reveal_strlit("적용");
    reveal_strlit("(섹션 없음)");
    reveal_strlit("섹션 추가");
    reveal_strlit("섹션 이름:");
    reveal_strlit("추가");
    reveal_strlit("취소");
    reveal_strlit("이름을 입력하세요");
    reveal_strlit("삭제");
    reveal_strlit("\"{}\"을(를) 삭제하시겠습니까?");
    reveal_strlit("찾아보기…");
    reveal_strlit("모든 파일");
    reveal_strlit("클릭하여 입력…");
    reveal_strlit("키를 누르세요…");
    reveal_strlit("지우기");
    reveal_strlit("표시");
    reveal_strlit("숨기기");
    reveal_strlit("설정 파일이 외부에서 수정되었습니다. 다시 불러오면 현재 편집 내용이 삭제됩니다. 계속 편집하여 저장하면 외부 변경 사항이 덮어씌워집니다.");
    reveal_strlit("다시 불러오기");
    reveal_strlit("계속 편집");
    reveal_strlit("설정");
    lemma_seq_differ(builtin_table(Lang::Ko).ok@, builtin_table(Lang::Ko).apply@, 0);
    lemma_seq_differ(builtin_table(Lang::Ko).ok@, builtin_table(Lang::Ko).cancel@, 0);
    lemma_seq_differ(builtin_table(Lang::Ko).apply@, builtin_table(Lang::Ko).cancel@, 0);
    lemma_seq_differ(builtin_table(Lang::Ko).add@, builtin_table(Lang::Ko).cancel@, 0);
    lemma_seq_differ(builtin_table(Lang::Ko).delete@, builtin_table(Lang::Ko).cancel@, 0);
    lemma_seq_differ(builtin_table(Lang::Ko).hide@, builtin_table(Lang::Ko).show@, 0);
    lemma_seq_differ(builtin_table(Lang::Ko).reload@, builtin_table(Lang::Ko).keep_editing@, 0);
    reveal_with_fuel(placeholder_count, 40);
}

proof fn lemma_nl_table()
    ensures
        table_well_formed(builtin_table(Lang::Nl)),
{
    reveal_strlit("OK");
    reveal_strlit("Toepassen");
    reveal_strlit("(geen secties)");
    reveal_strlit("Sectie toevoegen");
    reveal_strlit("Sectienaam:");
    reveal_strlit("Toevoegen");
    reveal_strlit("Annuleren");
    reveal_strlit("Voer een naam in");
    reveal_strlit("Verwijderen");
    reveal_strlit("\"{}\" verwijderen?");
    reveal_strlit("Bladeren…");
    reveal_strlit("Alle bestanden");
    reveal_strlit("Klik om in te voeren…");
    reveal_strlit("Druk op een toets…");
    reveal_strlit("Wissen");
    reveal_strlit("Tonen");
    reveal_strlit("Verbergen");
    reveal_strlit("Het configuratiebestand is extern gewijzigd. Herladen verwijdert uw huidige wijzigingen. Als u doorgaat met bewerken en opslaat, worden de externe wijzigingen overschreven.");
    reveal_strlit("Herladen");
    reveal_strlit("Doorgaan met bewerken");
    reveal_strlit("Instellingen");
    lemma_seq_differ(builtin_table(Lang::Nl).apply@, builtin_table(Lang::Nl).ok@, 0);
    lemma_seq_differ(builtin_table(Lang::Nl).cancel@, builtin_table(Lang::Nl).ok@, 0);
    lemma_seq_differ(builtin_table(Lang::Nl).apply@, builtin_table(Lang::Nl).cancel@, 0);
    lemma_seq_differ(builtin_table(Lang::Nl).add@, builtin_table(Lang::Nl).cancel@, 0);
    lemma_seq_differ(builtin_table(Lang::Nl).delete@, builtin_table(Lang::Nl).cancel@, 0);
    lemma_seq_differ(builtin_table(Lang::Nl).hide@, builtin_table(Lang::Nl).show@, 0);
    lemma_seq_differ(builtin_table(Lang::Nl).keep_editing@, builtin_table(Lang::Nl).reload@, 0);
    reveal_with_fuel(placeholder_count, 40);
}

proof fn lemma_pt_table()
    ensures
        table_well_formed(builtin_table(Lang::Pt)),
{
    reveal_strlit("OK");
    reveal_strlit("Aplicar");
    reveal_strlit("(sem seções)");
    reveal_strlit("Adicionar seção");
    reveal_strlit("Nome da seção:");
    reveal_strlit("Adicionar");
    reveal_strlit("Cancelar");
    reveal_strlit("Por favor, insira um nome");
    reveal_strlit("Excluir");
    reveal_strlit("Excluir \"{}\"?");
    reveal_strlit("Procurar…");
    reveal_strlit("Todos os arquivos");
    reveal_strlit("Clique para inserir…");
    reveal_strlit("Pressione uma tecla…");
    reveal_strlit("Limpar");
    reveal_strlit("Mostrar");
    reveal_strlit("Ocultar");
    reveal_strlit("O arquivo de configuração foi modificado externamente. Recarregar descartará suas edições atuais. Continuar editando e salvar sobrescreverá as alterações externas.");
    reveal_strlit("Recarregar");
    reveal_strlit("Continuar editando");
    reveal_strlit("Configurações");
    lemma_seq_differ(builtin_table(Lang::Pt).apply@, builtin_table(Lang::Pt).ok@, 0);
    lemma_seq_differ(builtin_table(Lang::Pt).cancel@, builtin_table(Lang::Pt).ok@, 0);
    lemma_seq_differ(builtin_table(Lang::Pt).cancel@, builtin_table(Lang::Pt).apply@, 0);
    lemma_seq_differ(builtin_table(Lang::Pt).add@, builtin_table(Lang::Pt).cancel@, 0);
    lemma_seq_differ(builtin_table(Lang::Pt).cancel@, builtin_table(Lang::Pt).delete@, 0);
    lemma_seq_differ(builtin_table(Lang::Pt).show@, builtin_table(Lang::Pt).hide@, 0);
    lemma_seq_differ(builtin_table(Lang::Pt).keep_editing@, builtin_table(Lang::Pt).reload@, 0);
    reveal_with_fuel(placeholder_count, 40);
}

proof fn lemma_ru_table()
    ensures
        table_well_formed(builtin_table(Lang::Ru)),
{
    reveal_strlit("ОК");
    reveal_strlit("Применить");
    reveal_strlit("(нет разделов)");
    reveal_strlit("Добавить раздел");
    reveal_strlit("Название раздела:");
    reveal_strlit("Добавить");
    reveal_strlit("Отмена");
    reveal_strlit("Введите имя");
    reveal_strlit("Удалить");
    reveal_strlit("Удалить \"{}\"?");
    reveal_strlit("Обзор…");
    reveal_strlit("Все файлы");
    reveal_strlit("Щёлкните для ввода…");
    reveal_strlit("Нажмите клавишу…");
    reveal_strlit("Очистить");
    reveal_strlit("Показать");
    reveal_strlit("Скрыть");
    reveal_strlit("Файл конфигурации был изменён внешней программой. Перезагрузка удалит текущие изменения. Продолжение редактирования с последующим сохранением перезапишет внешние изменения.");
    reveal_strlit("Перезагрузить");
    reveal_strlit("Продолжить редактирование");
    reveal_strlit("Настройки");
    lemma_seq_differ(builtin_table(Lang::Ru).apply@, builtin_table(Lang::Ru).ok@, 0);
    lemma_seq_differ(builtin_table(Lang::Ru).cancel@, builtin_table(Lang::Ru).ok@, 1);
    lemma_seq_differ(builtin_table(Lang::Ru).apply@, builtin_table(Lang::Ru).cancel@, 0);
    lemma_seq_differ(builtin_table(Lang::Ru).add@, builtin_table(Lang::Ru).cancel@, 0);
    lemma_seq_differ(builtin_table(Lang::Ru).delete@, builtin_table(Lang::Ru).cancel@, 0);
    lemma_seq_differ(builtin_table(Lang::Ru).show@, builtin_table(Lang::Ru).hide@, 0);
    lemma_seq_differ(builtin_table(Lang::Ru).keep_editing@, builtin_table(Lang::Ru).reload@, 1);
    reveal_with_fuel(placeholder_count, 40);
}

proof fn lemma_es_table()
    ensures
        table_well_formed(builtin_table(Lang::Es)),
{
    reveal_strlit("Aceptar");
    reveal_strlit("Aplicar");
    reveal_strlit("(sin secciones)");
    reveal_strlit("Agregar sección");
    reveal_strlit("Nombre de sección:");
    reveal_strlit("Agregar");
    reveal_strlit("Cancelar");
    reveal_strlit("Por favor, ingrese un nombre");
    reveal_strlit("Eliminar");
    reveal_strlit("¿Eliminar \"{}\"?");
    reveal_strlit("Examinar…");
    reveal_strlit("Todos los archivos");
    reveal_strlit("Haga clic para ingresar…");
    reveal_strlit("Presione una tecla…");
    reveal_strlit("Borrar");
    reveal_strlit("Mostrar");
    reveal_strlit("Ocultar");
    reveal_strlit("El archivo de configuración fue modificado externamente. Recargar descartará sus ediciones actuales. Si continúa editando y guarda, los cambios externos serán sobrescritos.");
    reveal_strlit("Recargar");
    reveal_strlit("Continuar editando");
    reveal_strlit("Ajustes");
    lemma_seq_differ(builtin_table(Lang::Es).ok@, builtin_table(Lang::Es).apply@, 1);
    lemma_seq_differ(builtin_table(Lang::Es).cancel@, builtin_table(Lang::Es).ok@, 0);
    lemma_seq_differ(builtin_table(Lang::Es).cancel@, builtin_table(Lang::Es).apply@, 0);
    lemma_seq_differ(builtin_table(Lang::Es).cancel@, builtin_table(Lang::Es).add@, 0);
    lemma_seq_differ(builtin_table(Lang::Es).delete@, builtin_table(Lang::Es).cancel@, 0);
    lemma_seq_differ(builtin_table(Lang::Es).show@, builtin_table(Lang::Es).hide@, 0);
    lemma_seq_differ(builtin_table(Lang::Es).keep_editing@, builtin_table(Lang::Es).reload@, 0);
    reveal_with_fuel(placeholder_count, 40);
}

proof fn lemma_sv_table()
    ensures
        table_well_formed(builtin_table(Lang::Sv)),
{
    reveal_strlit("OK");
    reveal_strlit("Verkställ");
    reveal_strlit("(inga avsnitt)");
    reveal_strlit("Lägg till avsnitt");
    reveal_strlit("Avsnittets namn:");
    reveal_strlit("Lägg till");
    reveal_strlit("Avbryt");
    reveal_strlit("Ange ett namn");
    reveal_strlit("Ta bort");
    reveal_strlit("Ta bort \"{}\"?");
    reveal_strlit("Bläddra…");
    reveal_strlit("Alla filer");
    reveal_strlit("Klicka för att ange…");
    reveal_strlit("Tryck på en tangent…");
    reveal_strlit("Rensa");
    reveal_strlit("Visa");
    reveal_strlit("Dölj");
    reveal_strlit("Konfigurationsfilen har ändrats externt. Att ladda om tar bort dina aktuella redigeringar. Om du fortsätter redigera och sparar skrivs de externa ändringarna över.");
    reveal_strlit("Ladda om");
    reveal_strlit("Fortsätt redigera");
    reveal_strlit("Inställningar");
    lemma_seq_differ(builtin_table(Lang::Sv).apply@, builtin_table(Lang::Sv).ok@, 0);
    lemma_seq_differ(builtin_table(Lang::Sv).cancel@, builtin_table(Lang::Sv).ok@, 0);
    lemma_seq_differ(builtin_table(Lang::Sv).apply@, builtin_table(Lang::Sv).cancel@, 0);
    lemma_seq_differ(builtin_table(Lang::Sv).add@, builtin_table(Lang::Sv).cancel@, 0);
    lemma_seq_differ(builtin_table(Lang::Sv).delete@, builtin_table(Lang::Sv).cancel@, 0);
    lemma_seq_differ(builtin_table(Lang::Sv).show@, builtin_table(Lang::Sv).hide@, 0);
    lemma_seq_differ(builtin_table(Lang::Sv).keep_editing@, builtin_table(Lang::Sv).reload@, 0);
    reveal_with_fuel(placeholder_count, 40);
}

proof fn lemma_tr_table()
    ensures
        table_well_formed(builtin_table(Lang::Tr)),
{
    reveal_strlit("Tamam");
    reveal_strlit("Uygula");
    reveal_strlit("(bölüm yok)");
    reveal_strlit("Bölüm ekle");
    reveal_strlit("Bölüm adı:");
    reveal_strlit("Ekle");
    reveal_strlit("İptal");
    reveal_strlit("Lütfen bir ad girin");
    reveal_strlit("Sil");
    reveal_strlit("\"{}\" silinsin mi?");
    reveal_strlit("Gözat…");
    reveal_strlit("Tüm dosyalar");
    reveal_strlit("Girmek için tıklayın…");
    reveal_strlit("Bir tuşa basın…");
    reveal_strlit("Temizle");
    reveal_strlit("Göster");
    reveal_strlit("Gizle");
    reveal_strlit("Yapılandırma dosyası harici olarak değiştirildi. Yeniden yüklemek mevcut düzenlemelerinizi siler. Düzenlemeye devam edip kaydederseniz, harici değişiklikler üzerine yazılır.");
    reveal_strlit("Yeniden yükle");
    reveal_strlit("Düzenlemeye devam et");
    reveal_strlit("Ayarlar");
    lemma_seq_differ(builtin_table(Lang::Tr).apply@, builtin_table(Lang::Tr).ok@, 0);
    lemma_seq_differ(builtin_table(Lang::Tr).ok@, builtin_table(Lang::Tr).cancel@, 0);
    lemma_seq_differ(builtin_table(Lang::Tr).apply@, builtin_table(Lang::Tr).cancel@, 0);
    lemma_seq_differ(builtin_table(Lang::Tr).cancel@, builtin_table(Lang::Tr).add@, 0);
    lemma_seq_differ(builtin_table(Lang::Tr).cancel@, builtin_table(Lang::Tr).delete@, 0);
    lemma_seq_differ(builtin_table(Lang::Tr).show@, builtin_table(Lang::Tr).hide@, 1);
    lemma_seq_differ(builtin_table(Lang::Tr).keep_editing@, builtin_table(Lang::Tr).reload@, 0);
    reveal_with_fuel(placeholder_count, 40);
}

proof fn lemma_vi_table()
    ensures
        table_well_formed(builtin_table(Lang::Vi)),
{
    reveal_strlit("OK");
    reveal_strlit("Áp dụng");
    reveal_strlit("(không có mục)");
    reveal_strlit("Thêm mục");
    reveal_strlit("Tên mục:");
    reveal_strlit("Thêm");
    reveal_strlit("Hủy");
    reveal_strlit("Vui lòng nhập tên");
    reveal_strlit("Xóa");
    reveal_strlit("Xóa \"{}\"?");
    reveal_strlit("Duyệt…");
    reveal_strlit("Tất cả tệp");
    reveal_strlit("Nhấp để nhập…");
    reveal_strlit("Nhấn phím…");
    reveal_strlit("Xóa");
    reveal_strlit("Hiện");
    reveal_strlit("Ẩn");
    reveal_strlit("Tệp cấu hình đã bị sửa đổi bên ngoài. Tải lại sẽ xóa các chỉnh sửa hiện tại của bạn. Tiếp tục chỉnh sửa và lưu sẽ ghi đè các thay đổi bên ngoài.");
    reveal_strlit("Tải lại");
    reveal_strlit("Tiếp tục chỉnh sửa");
    reveal_strlit("Cài đặt");
    lemma_seq_differ(builtin_table(Lang::Vi).apply@, builtin_table(Lang::Vi).ok@, 0);
    lemma_seq_differ(builtin_table(Lang::Vi).cancel@, builtin_table(Lang::Vi).ok@, 0);
    lemma_seq_differ(builtin_table(Lang::Vi).apply@, builtin_table(Lang::Vi).cancel@, 0);
    lemma_seq_differ(builtin_table(Lang::Vi).add@, builtin_table(Lang::Vi).cancel@, 0);
    lemma_seq_differ(builtin_table(Lang::Vi).delete@, builtin_table(Lang::Vi).cancel@, 0);
    lemma_seq_differ(builtin_table(Lang::Vi).show@, builtin_table(Lang::Vi).hide@, 0);
    lemma_seq_differ(builtin_table(Lang::Vi).keep_editing@, builtin_table(Lang::Vi).reload@, 1);
    reveal_with_fuel(placeholder_count, 40);
}

/// Every built-in table is well formed: no string is empty, the buttons of
/// one dialog (OK, Apply, Cancel; Add, Delete, Cancel; Show, Hide; Reload,
/// Keep Editing) carry different labels, and the delete confirmation template
/// has exactly one placeholder, so the confirmation always names what is
/// deleted.
pub proof fn law_builtin_tables_well_formed(l: Lang, name: Seq<char>)
    ensures
        table_well_formed(builtin_table(l)),
        exists|i: int|
            0 <= i && i + name.len() <= fill_placeholder(
                builtin_table(l).delete_confirm_template(),
                name,
            ).len() && #[trigger] fill_placeholder(
                builtin_table(l).delete_confirm_template(),
                name,
            ).subrange(i, i + name.len()) == name,
{
    match l {
        Lang::Ar => lemma_ar_table(),
        Lang::Zh => lemma_zh_table(),
        Lang::De => lemma_de_table(),
        Lang::En => lemma_en_table(),
        Lang::Fr => lemma_fr_table(),
        Lang::Hi => lemma_hi_table(),
        Lang::It => lemma_it_table(),
        Lang::Ja => lemma_ja_table(),
        Lang::Ko => lemma_ko_table(),
        Lang::Nl => lemma_nl_table(),
        Lang::Pt => lemma_pt_table(),
        Lang::Ru => lemma_ru_table(),
        Lang::Es => lemma_es_table(),
        Lang::Sv => lemma_sv_table(),
        Lang::Tr => lemma_tr_table(),
        Lang::Vi => lemma_vi_table(),
    }
    lemma_fill_contains_name(builtin_table(l).delete_confirm_template(), name);
}

} // verus!





