use vstd::prelude::*;
use vstd::string::StringSliceAdditionalSpecFns;
use std::collections::HashMap;
use crate::frame::extend_bytes;

verus! {

broadcast use vstd::std_specs::hash::group_hash_axioms;

/// Which content types are unlocked.
#[derive(Clone, Copy)]
pub struct UnlockerConfig {
    pub unlock_chara: bool,
    pub unlock_music: bool,
    pub unlock_nameplate: bool,
    pub unlock_systemvoice: bool,
    pub unlock_event: bool,
    pub unlock_mapicon: bool,
    pub unlock_trophy: bool,
}

impl Default for UnlockerConfig {
    /// Every content type unlocked.
    fn default() -> (c: Self)
        ensures
            c.unlock_chara && c.unlock_music && c.unlock_nameplate && c.unlock_systemvoice && c.unlock_event
                && c.unlock_mapicon && c.unlock_trophy,
    {
        UnlockerConfig {
            unlock_chara: true,
            unlock_music: true,
            unlock_nameplate: true,
            unlock_systemvoice: true,
            unlock_event: true,
            unlock_mapicon: true,
            unlock_trophy: true,
        }
    }
}

/// One unlock rule: the file it applies to (any letter case), the name used in
/// the log, and the XML tag whose text is set to `value`.
#[derive(Clone, Copy)]
pub struct UnlockRule {
    pub filename: &'static str,
    pub label: &'static str,
    pub tag: &'static str,
    pub value: &'static str,
}

/// Number of unlock rules.
pub const RULE_COUNT: usize = 7;

/// The file name of rule `i`, as bytes.
pub open spec fn rule_filename_spec(i: int) -> Seq<u8> {
    if i == 0 {
        seq![67u8, 104, 97, 114, 97, 46, 120, 109, 108]
    } else if i == 1 {
        seq![77u8, 117, 115, 105, 99, 46, 120, 109, 108]
    } else if i == 2 {
        seq![78u8, 97, 109, 101, 80, 108, 97, 116, 101, 46, 120, 109, 108]
    } else if i == 3 {
        seq![83u8, 121, 115, 116, 101, 109, 86, 111, 105, 99, 101, 46, 120, 109, 108]
    } else if i == 4 {
        seq![69u8, 118, 101, 110, 116, 46, 120, 109, 108]
    } else if i == 5 {
        seq![77u8, 97, 112, 73, 99, 111, 110, 46, 120, 109, 108]
    } else {
        seq![84u8, 114, 111, 112, 104, 121, 46, 120, 109, 108]
    }
}

/// Whether rule `i` is switched on in `config`.
pub open spec fn rule_enabled_spec(config: UnlockerConfig, i: int) -> bool {
    if i == 0 {
        config.unlock_chara
    } else if i == 1 {
        config.unlock_music
    } else if i == 2 {
        config.unlock_nameplate
    } else if i == 3 {
        config.unlock_systemvoice
    } else if i == 4 {
        config.unlock_event
    } else if i == 5 {
        config.unlock_mapicon
    } else {
        config.unlock_trophy
    }
}

/// Whether rule `i` is switched on in `config`.
pub fn rule_enabled(config: &UnlockerConfig, i: usize) -> (b: bool)
    requires
        i < RULE_COUNT,
    ensures
        b == rule_enabled_spec(*config, i as int),
{
    if i == 0 {
        config.unlock_chara
    } else if i == 1 {
        config.unlock_music
    } else if i == 2 {
        config.unlock_nameplate
    } else if i == 3 {
        config.unlock_systemvoice
    } else if i == 4 {
        config.unlock_event
    } else if i == 5 {
        config.unlock_mapicon
    } else {
        config.unlock_trophy
    }
}

/// Rule `i`: `Chara.xml`, `NamePlate.xml`, `SystemVoice.xml`, `MapIcon.xml`
/// and `Trophy.xml` get `<defaultHave>true`, `Music.xml` gets
/// `<firstLock>false` and `Event.xml` gets `<alwaysOpen>true`.
pub fn unlock_rule(i: usize) -> (r: UnlockRule)
    requires
        i < RULE_COUNT,
    ensures
        r.filename.spec_bytes() == rule_filename_spec(i as int),
        r.tag.spec_bytes() == rule_tag_spec(i as int),
        r.value.spec_bytes() == rule_value_spec(i as int),
{
    proof {
        reveal_strlit("Chara.xml");
        reveal_strlit("Music.xml");
        reveal_strlit("NamePlate.xml");
        reveal_strlit("SystemVoice.xml");
        reveal_strlit("Event.xml");
        reveal_strlit("MapIcon.xml");
        reveal_strlit("Trophy.xml");
        reveal_strlit("defaultHave");
        reveal_strlit("firstLock");
        reveal_strlit("alwaysOpen");
        reveal_strlit("true");
        reveal_strlit("false");
        vstd::string::is_ascii_spec_bytes("Chara.xml");
        vstd::string::is_ascii_spec_bytes("Music.xml");
        vstd::string::is_ascii_spec_bytes("NamePlate.xml");
        vstd::string::is_ascii_spec_bytes("SystemVoice.xml");
        vstd::string::is_ascii_spec_bytes("Event.xml");
        vstd::string::is_ascii_spec_bytes("MapIcon.xml");
        vstd::string::is_ascii_spec_bytes("Trophy.xml");
        vstd::string::is_ascii_spec_bytes("defaultHave");
        vstd::string::is_ascii_spec_bytes("firstLock");
        vstd::string::is_ascii_spec_bytes("alwaysOpen");
        vstd::string::is_ascii_spec_bytes("true");
        vstd::string::is_ascii_spec_bytes("false");
    }
    let r = if i == 0 {
        UnlockRule { filename: "Chara.xml", label: "character", tag: "defaultHave", value: "true" }
    } else if i == 1 {
        UnlockRule { filename: "Music.xml", label: "music", tag: "firstLock", value: "false" }
    } else if i == 2 {
        UnlockRule { filename: "NamePlate.xml", label: "nameplate", tag: "defaultHave", value: "true" }
    } else if i == 3 {
        UnlockRule { filename: "SystemVoice.xml", label: "system voice", tag: "defaultHave", value: "true" }
    } else if i == 4 {
        UnlockRule { filename: "Event.xml", label: "event", tag: "alwaysOpen", value: "true" }
    } else if i == 5 {
        UnlockRule { filename: "MapIcon.xml", label: "map icon", tag: "defaultHave", value: "true" }
    } else {
        UnlockRule { filename: "Trophy.xml", label: "trophy", tag: "defaultHave", value: "true" }
    };
    assert(r.filename.spec_bytes() =~= rule_filename_spec(i as int));
    assert(r.tag.spec_bytes() =~= rule_tag_spec(i as int));
    assert(r.value.spec_bytes() =~= rule_value_spec(i as int));
    r
}

/// The tag that rule `i` rewrites, as bytes.
pub open spec fn rule_tag_spec(i: int) -> Seq<u8> {
    if i == 1 {
        seq![102u8, 105, 114, 115, 116, 76, 111, 99, 107]
    } else if i == 4 {
        seq![97u8, 108, 119, 97, 121, 115, 79, 112, 101, 110]
    } else {
        seq![100u8, 101, 102, 97, 117, 108, 116, 72, 97, 118, 101]
    }
}

/// The value that rule `i` writes, as bytes.
pub open spec fn rule_value_spec(i: int) -> Seq<u8> {
    if i == 1 {
        seq![102u8, 97, 108, 115, 101]
    } else {
        seq![116u8, 114, 117, 101]
    }
}

/// All unlock rules, in order.
pub fn unlock_rules() -> (rules: Vec<UnlockRule>)
    ensures
        rules@.len() == RULE_COUNT,
        forall|i: int| 0 <= i < RULE_COUNT ==> (#[trigger] rules@[i]).filename.spec_bytes() == rule_filename_spec(i),
        forall|i: int| 0 <= i < RULE_COUNT ==> (#[trigger] rules@[i]).tag.spec_bytes() == rule_tag_spec(i),
        forall|i: int| 0 <= i < RULE_COUNT ==> (#[trigger] rules@[i]).value.spec_bytes() == rule_value_spec(i),
{
    let mut rules: Vec<UnlockRule> = Vec::new();
    let mut i: usize = 0;
    while i < RULE_COUNT
        invariant
            i <= RULE_COUNT,
            rules@.len() == i,
            forall|j: int| 0 <= j < i ==> (#[trigger] rules@[j]).filename.spec_bytes() == rule_filename_spec(j),
            forall|j: int| 0 <= j < i ==> (#[trigger] rules@[j]).tag.spec_bytes() == rule_tag_spec(j),
            forall|j: int| 0 <= j < i ==> (#[trigger] rules@[j]).value.spec_bytes() == rule_value_spec(j),
        decreases RULE_COUNT - i,
    {
        rules.push(unlock_rule(i));
        i = i + 1;
    }
    rules
}

/// An ASCII byte folded to lower case.
pub open spec fn ascii_lower(b: u8) -> u8 {
    if 65 <= b <= 90 { (b + 32) as u8 } else { b }
}

/// Whether two byte strings are equal ignoring ASCII letter case.
pub open spec fn eq_ignore_case(a: Seq<u8>, b: Seq<u8>) -> bool {
    a.len() == b.len() && forall|i: int| 0 <= i < a.len() ==> ascii_lower(#[trigger] a[i]) == ascii_lower(b[i])
}

fn lower(b: u8) -> (out: u8)
    ensures
        out == ascii_lower(b),
{
    if 65 <= b && b <= 90 { b + 32 } else { b }
}

/// Whether two byte strings are equal ignoring ASCII letter case.
pub fn bytes_eq_ignore_case(a: &[u8], b: &[u8]) -> (eq: bool)
    ensures
        eq == eq_ignore_case(a@, b@),
{
    if a.len() != b.len() {
        return false;
    }
    let mut i: usize = 0;
    while i < a.len()
        invariant
            a@.len() == b@.len(),
            i <= a@.len(),
            forall|j: int| 0 <= j < i ==> ascii_lower(#[trigger] a@[j]) == ascii_lower(b@[j]),
        decreases a@.len() - i,
    {
        if lower(a[i]) != lower(b[i]) {
            return false;
        }
        i = i + 1;
    }
    true
}

/// `.xml` as bytes.
pub open spec fn xml_ext() -> Seq<u8> {
    seq![46u8, 120, 109, 108]
}

/// Whether a file name ends in `.xml`, in any letter case.
pub open spec fn has_xml_ext_spec(name: Seq<u8>) -> bool {
    name.len() >= 4 && eq_ignore_case(name.skip(name.len() - 4), xml_ext())
}

/// Whether a file name ends in `.xml`, in any letter case.
pub fn has_xml_extension(filename: &str) -> (b: bool)
    ensures
        b == has_xml_ext_spec(filename.spec_bytes()),
{
    let bytes = filename.as_bytes();
    if bytes.len() < 4 {
        return false;
    }
    let (_, ext) = bytes.split_at(bytes.len() - 4);
    let dot_xml: [u8; 4] = [46, 120, 109, 108];
    assert(dot_xml@ =~= xml_ext());
    assert(ext@ =~= bytes@.skip(bytes@.len() - 4));
    bytes_eq_ignore_case(ext, dot_xml.as_slice())
}

/// The first switched-on rule whose file name equals `name` ignoring case,
/// looked at only for `.xml` names.
pub open spec fn find_rule_spec(config: UnlockerConfig, name: Seq<u8>) -> Option<usize> {
    if !has_xml_ext_spec(name) {
        None
    } else {
        first_rule_from(config, name, 0)
    }
}

pub open spec fn first_rule_from(config: UnlockerConfig, name: Seq<u8>, i: int) -> Option<usize>
    decreases RULE_COUNT - i,
{
    if i < 0 || i >= RULE_COUNT {
        None
    } else if eq_ignore_case(name, rule_filename_spec(i)) && rule_enabled_spec(config, i) {
        Some(i as usize)
    } else {
        first_rule_from(config, name, i + 1)
    }
}

/// The rule that applies to a file name (see `find_rule_spec`).
pub fn find_rule(config: &UnlockerConfig, filename: &str) -> (r: Option<usize>)
    ensures
        r == find_rule_spec(*config, filename.spec_bytes()),
{
    if !has_xml_extension(filename) {
        return None;
    }
    let name = filename.as_bytes();
    let mut i: usize = 0;
    while i < RULE_COUNT
        invariant
            i <= RULE_COUNT,
            name@ == filename.spec_bytes(),
            has_xml_ext_spec(name@),
            find_rule_spec(*config, name@) == first_rule_from(*config, name@, i as int),
        decreases RULE_COUNT - i,
    {
        let rule = unlock_rule(i);
        if bytes_eq_ignore_case(name, rule.filename.as_bytes()) && rule_enabled(config, i) {
            return Some(i);
        }
        i = i + 1;
    }
    None
}

/// The first index at or after `from` where `pat` occurs in `text`.
pub open spec fn find_from(text: Seq<u8>, pat: Seq<u8>, from: int) -> Option<int>
    decreases text.len() - from,
{
    if from < 0 || from >= text.len() || from + pat.len() > text.len() {
        None
    } else if text.subrange(from, from + pat.len()) == pat {
        Some(from)
    } else {
        find_from(text, pat, from + 1)
    }
}

pub proof fn lemma_find_from_bounds(text: Seq<u8>, pat: Seq<u8>, from: int)
    ensures
        find_from(text, pat, from) matches Some(i) ==> from <= i && i < text.len() && i + pat.len() <= text.len() && text.subrange(
            i,
            i + pat.len(),
        ) == pat,
    decreases text.len() - from,
{
    if from >= 0 && from < text.len() && from + pat.len() <= text.len() && text.subrange(from, from + pat.len()) != pat {
        lemma_find_from_bounds(text, pat, from + 1);
    }
}

fn matches_at(text: &[u8], pat: &[u8], at: usize) -> (b: bool)
    requires
        at + pat@.len() <= text@.len(),
    ensures
        b == (text@.subrange(at as int, at + pat@.len()) == pat@),
{
    let n = text.len();
    let mut j: usize = 0;
    while j < pat.len()
        invariant
            at + pat@.len() <= text@.len(),
            n == text@.len(),
            j <= pat@.len(),
            forall|k: int| 0 <= k < j ==> text@[at + k] == pat@[k],
        decreases pat@.len() - j,
    {
        if text[at + j] != pat[j] {
            assert(text@.subrange(at as int, at + pat@.len())[j as int] != pat@[j as int]);
            return false;
        }
        j = j + 1;
    }
    assert(text@.subrange(at as int, at + pat@.len()) =~= pat@);
    true
}

/// The first index at or after `from` where `pat` occurs in `text`.
pub fn find_bytes(text: &[u8], pat: &[u8], from: usize) -> (r: Option<usize>)
    requires
        from <= text@.len(),
    ensures
        r matches Some(i) ==> find_from(text@, pat@, from as int) == Some(i as int),
        r is None ==> find_from(text@, pat@, from as int) is None,
{
    let mut i = from;
    while i < text.len() && pat.len() <= text.len() - i
        invariant
            from <= i,
            find_from(text@, pat@, from as int) == find_from(text@, pat@, i as int),
        decreases text@.len() + 1 - i,
    {
        if matches_at(text, pat, i) {
            return Some(i);
        }
        i = i + 1;
    }
    None
}

/// Whether a byte may follow a tag name inside its open tag.
pub open spec fn is_tag_delim(b: u8) -> bool {
    b == 62 || b == 47 || b == 32 || b == 9 || b == 10 || b == 13
}

/// `<tag` as bytes.
pub open spec fn open_prefix(tag: Seq<u8>) -> Seq<u8> {
    seq![60u8] + tag
}

/// `</tag>` as bytes.
pub open spec fn close_tag(tag: Seq<u8>) -> Seq<u8> {
    seq![60u8, 47u8] + tag + seq![62u8]
}

/// The rewrite of `text` from `from` on: every element `<tag ...>inner</tag>`
/// gets `target` as its text; a self-closing or unclosed `<tag>` and a longer
/// tag name starting with `tag` stay as they are. Also says whether some inner
/// text differed from `target`.
pub open spec fn xml_rewrite(text: Seq<u8>, tag: Seq<u8>, target: Seq<u8>, from: int) -> (Seq<u8>, bool)
    decreases text.len() - from,
{
    if from < 0 || from > text.len() {
        (Seq::empty(), false)
    } else {
        let open = open_prefix(tag);
        let close = close_tag(tag);
        match find_from(text, open, from) {
            None => (text.skip(from), false),
            Some(abs) => {
                proof {
                    lemma_find_from_bounds(text, open, from);
                }
                let after = abs + open.len();
                if !(after < text.len() && is_tag_delim(text[after])) {
                    let (r, c) = xml_rewrite(text, tag, target, after);
                    (text.subrange(from, after) + r, c)
                } else {
                    match find_from(text, seq![62u8], after) {
                        None => (text.skip(from), false),
                        Some(open_end) => {
                            proof {
                                lemma_find_from_bounds(text, seq![62u8], after);
                            }
                            if open_end > after && text[open_end - 1] == 47 {
                                let (r, c) = xml_rewrite(text, tag, target, open_end + 1);
                                (text.subrange(from, open_end + 1) + r, c)
                            } else {
                                match find_from(text, close, open_end + 1) {
                                    None => {
                                        let (r, c) = xml_rewrite(text, tag, target, open_end + 1);
                                        (text.subrange(from, open_end + 1) + r, c)
                                    },
                                    Some(cs) => {
                                        proof {
                                            lemma_find_from_bounds(text, close, open_end + 1);
                                        }
                                        let inner = text.subrange(open_end + 1, cs);
                                        let (r, c) = xml_rewrite(text, tag, target, cs + close.len());
                                        (text.subrange(from, open_end + 1) + target + close + r, c || inner != target)
                                    },
                                }
                            }
                        },
                    }
                }
            },
        }
    }
}

/// The rewritten text when it differs in some element's text, `None` otherwise.
pub open spec fn modify_xml_spec(text: Seq<u8>, tag: Seq<u8>, target: Seq<u8>) -> Option<Seq<u8>> {
    let (r, c) = xml_rewrite(text, tag, target, 0);
    if c { Some(r) } else { None }
}

fn push_range(out: &mut Vec<u8>, text: &[u8], start: usize, end: usize)
    requires
        start <= end <= text@.len(),
    ensures
        final(out)@ == old(out)@ + text@.subrange(start as int, end as int),
{
    let mut i = start;
    while i < end
        invariant
            start <= i <= end <= text@.len(),
            out@ == old(out)@ + text@.subrange(start as int, i as int),
        decreases end - i,
    {
        out.push(text[i]);
        i = i + 1;
        assert(out@ =~= old(out)@ + text@.subrange(start as int, i as int));
    }
}

/// Sets the text of every `tag` element of an XML document to `target`
/// (see `xml_rewrite`); `None` when no element's text changes.
#[verifier::rlimit(40)]
pub fn modify_xml(text: &[u8], tag: &[u8], target: &[u8]) -> (out: Option<Vec<u8>>)
    requires
        tag@.len() + 3 <= usize::MAX,
    ensures
        match modify_xml_spec(text@, tag@, target@) {
            Some(r) => out matches Some(v) && v@ == r,
            None => out is None,
        },
{
    let mut open: Vec<u8> = Vec::new();
    open.push(60);
    extend_bytes(&mut open, tag);
    let mut close: Vec<u8> = Vec::new();
    close.push(60);
    close.push(47);
    extend_bytes(&mut close, tag);
    close.push(62);
    let gt: [u8; 1] = [62];
    proof {
        assert(open@ =~= open_prefix(tag@));
        assert(close@ =~= close_tag(tag@));
        assert(gt@ =~= seq![62u8]);
    }
    let mut result: Vec<u8> = Vec::new();
    let mut from: usize = 0;
    let mut changed = false;
    let tlen = text.len();
    loop
        invariant_except_break
            result@ + xml_rewrite(text@, tag@, target@, from as int).0 == xml_rewrite(text@, tag@, target@, 0).0,
            (changed || xml_rewrite(text@, tag@, target@, from as int).1) == xml_rewrite(text@, tag@, target@, 0).1,
        invariant
            from <= text@.len(),
            tlen == text@.len(),
            open@ == open_prefix(tag@),
            close@ == close_tag(tag@),
            gt@ == seq![62u8],
        ensures
            result@ == xml_rewrite(text@, tag@, target@, 0).0,
            changed == xml_rewrite(text@, tag@, target@, 0).1,
        decreases text@.len() - from,
    {
        let ghost before = result@;
        let ghost rw = xml_rewrite(text@, tag@, target@, from as int);
        match find_bytes(text, open.as_slice(), from) {
            None => {
                push_range(&mut result, text, from, text.len());
                assert(text@.subrange(from as int, text@.len() as int) =~= text@.skip(from as int));
                break;
            },
            Some(abs) => {
                proof {
                    lemma_find_from_bounds(text@, open@, from as int);
                }
                let after = abs + open.len();
                if !(after < text.len() && (text[after] == 62 || text[after] == 47 || text[after] == 32
                    || text[after] == 9 || text[after] == 10 || text[after] == 13)) {
                    push_range(&mut result, text, from, after);
                    proof {
                        let (r, c) = xml_rewrite(text@, tag@, target@, after as int);
                        assert(result@ + r =~= before + (text@.subrange(from as int, after as int) + r));
                    }
                    from = after;
                } else {
                    match find_bytes(text, gt.as_slice(), after) {
                        None => {
                            push_range(&mut result, text, from, text.len());
                            assert(text@.subrange(from as int, text@.len() as int) =~= text@.skip(from as int));
                            break;
                        },
                        Some(open_end) => {
                            proof {
                                lemma_find_from_bounds(text@, gt@, after as int);
                            }
                            if open_end > after && text[open_end - 1] == 47 {
                                push_range(&mut result, text, from, open_end + 1);
                                proof {
                                    let (r, c) = xml_rewrite(text@, tag@, target@, open_end + 1);
                                    assert(result@ + r =~= before + (text@.subrange(from as int, open_end + 1) + r));
                                }
                                from = open_end + 1;
                            } else {
                                match find_bytes(text, close.as_slice(), open_end + 1) {
                                    None => {
                                        push_range(&mut result, text, from, open_end + 1);
                                        proof {
                                            let (r, c) = xml_rewrite(text@, tag@, target@, open_end + 1);
                                            assert(result@ + r =~= before + (text@.subrange(from as int, open_end + 1) + r));
                                        }
                                        from = open_end + 1;
                                    },
                                    Some(cs) => {
                                        proof {
                                            lemma_find_from_bounds(text@, close@, open_end + 1);
                                        }
                                        let inner_differs = !(cs - (open_end + 1) == target.len()
                                            && matches_at(text, target, open_end + 1));
                                        proof {
                                            let inner = text@.subrange(open_end + 1, cs as int);
                                            if cs - (open_end + 1) == target@.len() {
                                                assert(text@.subrange(open_end + 1, open_end + 1 + target@.len()) =~= inner);
                                            }
                                            assert(inner_differs == (inner != target@));
                                        }
                                        push_range(&mut result, text, from, open_end + 1);
                                        extend_bytes(&mut result, target);
                                        extend_bytes(&mut result, close.as_slice());
                                        if inner_differs {
                                            changed = true;
                                        }
                                        let next = cs + close.len();
                                        proof {
                                            let (r, c) = xml_rewrite(text@, tag@, target@, next as int);
                                            assert(result@ + r =~= before + (text@.subrange(from as int, open_end + 1)
                                                + target@ + close@ + r));
                                        }
                                        from = next;
                                    },
                                }
                            }
                        },
                    }
                }
            },
        }
    }
    if changed {
        Some(result)
    } else {
        None
    }
}


pub const ERROR_INVALID_HANDLE: u32 = 6;
pub const ERROR_INVALID_PARAMETER: u32 = 87;
pub const ERROR_NEGATIVE_SEEK: u32 = 131;
pub const GENERIC_WRITE: u32 = 0x4000_0000;
pub const GENERIC_ALL: u32 = 0x1000_0000;
pub const FILE_WRITE_DATA: u32 = 0x0002;
pub const FILE_APPEND_DATA: u32 = 0x0004;
pub const OPEN_EXISTING: u32 = 3;
pub const OPEN_ALWAYS: u32 = 4;
pub const FILE_FLAG_OVERLAPPED: u32 = 0x4000_0000;
pub const FILE_BEGIN: u32 = 0;
pub const FILE_CURRENT: u32 = 1;
pub const FILE_END: u32 = 2;

/// Whether an open asks for nothing but reading an existing file
/// synchronously: no write access, no truncation or creation of a new file, no
/// overlapped I/O.
pub open spec fn read_only_open_spec(access: u32, creation: u32, flags: u32) -> bool {
    access & (GENERIC_WRITE | GENERIC_ALL | FILE_WRITE_DATA | FILE_APPEND_DATA) == 0
        && (creation == OPEN_EXISTING || creation == OPEN_ALWAYS) && flags & FILE_FLAG_OVERLAPPED == 0
}

/// Whether an open may be served from memory (see `read_only_open_spec`).
pub fn is_read_only_open(access: u32, creation: u32, flags: u32) -> (b: bool)
    ensures
        b == read_only_open_spec(access, creation, flags),
{
    access & (GENERIC_WRITE | GENERIC_ALL | FILE_WRITE_DATA | FILE_APPEND_DATA) == 0
        && (creation == OPEN_EXISTING || creation == OPEN_ALWAYS) && flags & FILE_FLAG_OVERLAPPED == 0
}

/// Whether `bytes` are well-formed UTF-8, by `std::str::from_utf8`. The
/// contract claims what its documentation says: it succeeds exactly on valid
/// UTF-8 (no overlong forms, no surrogates, nothing above U+10FFFF), which is
/// vstd's `valid_utf8`.
#[verifier::external_body]
pub(crate) fn utf8_valid(bytes: &[u8]) -> (ok: bool)
    ensures
        ok == vstd::utf8::valid_utf8(bytes@),
{
    std::str::from_utf8(bytes).is_ok()
}

/// The contents to serve for a file that rule `rule_index` applies to: the
/// rewritten document, or `None` when the original file is to be used (it is
/// not UTF-8, or no element's text changes).
pub fn load_modified(raw: &[u8], rule_index: usize) -> (out: Option<Vec<u8>>)
    requires
        rule_index < RULE_COUNT,
    ensures
        !vstd::utf8::valid_utf8(raw@) ==> out is None,
        vstd::utf8::valid_utf8(raw@) ==> match modify_xml_spec(
            raw@,
            rule_tag_spec(rule_index as int),
            rule_value_spec(rule_index as int),
        ) {
            Some(r) => out matches Some(v) && v@ == r,
            None => out is None,
        },
{
    if !utf8_valid(raw) {
        return None;
    }
    let rule = unlock_rule(rule_index);
    modify_xml(raw, rule.tag.as_bytes(), rule.value.as_bytes())
}

/// The rewritten contents served for one intercepted handle, and the position
/// of the next synchronous read.
pub struct FileState {
    pub data: Vec<u8>,
    pub pos: usize,
}

/// The intercepted handles.
pub struct UnlockerFiles {
    pub files: HashMap<usize, FileState>,
}

/// What a read on an intercepted handle reports: the `BOOL` result, the last
/// error to set, the bytes for the caller's buffer and their count.
pub struct FileRead {
    pub ret: i32,
    pub last_error: Option<u32>,
    pub data: Vec<u8>,
    pub out_nbytes: u32,
}

/// What a seek on an intercepted handle reports: the `BOOL` result, the last
/// error to set and the new position.
pub struct FileSeek {
    pub ret: i32,
    pub last_error: Option<u32>,
    pub new_pos: Option<i64>,
}

/// Where a read starts: the handle's position, or the offset the caller gave
/// in an `OVERLAPPED`, capped to the address range.
pub open spec fn read_start(pos: usize, offset: Option<u64>) -> int {
    match offset {
        None => pos as int,
        Some(o) => if o > usize::MAX { usize::MAX as int } else { o as int },
    }
}

/// How many bytes a read of at most `nbytes` from `start` returns.
pub open spec fn read_len(len: int, start: int, nbytes: u32) -> int {
    let available = if start < len { len - start } else { 0 };
    if available < nbytes { available } else { nbytes as int }
}

impl UnlockerFiles {
    pub fn new() -> (f: Self)
        ensures
            f.files@ == Map::<usize, FileState>::empty(),
    {
        UnlockerFiles { files: HashMap::new() }
    }

    /// Whether `handle` is served from memory.
    pub fn is_unlocker_handle(&self, handle: usize) -> (b: bool)
        ensures
            b == self.files@.contains_key(handle),
    {
        self.files.contains_key(&handle)
    }

    /// Starts serving `data` on `handle` from its beginning.
    pub fn insert(&mut self, handle: usize, data: Vec<u8>)
        ensures
            final(self).files@ == old(self).files@.insert(handle, FileState { data, pos: 0 }),
    {
        self.files.insert(handle, FileState { data, pos: 0 });
    }

    /// Stops serving `handle`; done before the handle itself is closed, so that
    /// a reused handle value never loses another file's state.
    pub fn remove(&mut self, handle: usize)
        ensures
            final(self).files@ == old(self).files@.remove(handle),
    {
        self.files.remove(&handle);
    }

    /// The size of the contents served on `handle`, 0 for other handles.
    pub fn file_size(&self, handle: usize) -> (size: u64)
        ensures
            size == (if self.files@.contains_key(handle) { self.files@[handle].data@.len() as u64 } else { 0u64 }),
    {
        match self.files.get(&handle) {
            Some(state) => state.data.len() as u64,
            None => 0,
        }
    }

    /// Serves a read of at most `nbytes` on `handle`. A synchronous read moves
    /// the position; one with an `OVERLAPPED` offset does not. A read that
    /// would return bytes into a missing buffer fails.
    pub fn read(&mut self, handle: usize, nbytes: u32, has_buffer: bool, offset: Option<u64>) -> (r: FileRead)
        ensures
            !old(self).files@.contains_key(handle) ==> r.ret == 0 && r.last_error == Some(ERROR_INVALID_HANDLE)
                && r.out_nbytes == 0 && r.data@.len() == 0 && final(self).files@ == old(self).files@,
            old(self).files@.contains_key(handle) ==> ({
                let st = old(self).files@[handle];
                let start = read_start(st.pos, offset);
                let n = read_len(st.data@.len() as int, start, nbytes);
                if n > 0 && !has_buffer {
                    r.ret == 0 && r.last_error == Some(ERROR_INVALID_PARAMETER) && r.out_nbytes == 0
                        && r.data@.len() == 0 && final(self).files@ == old(self).files@
                } else {
                    &&& r.ret == 1 && r.last_error is None
                    &&& r.out_nbytes == n
                    &&& r.data@ == (if n > 0 { st.data@.subrange(start, start + n) } else { Seq::<u8>::empty() })
                    &&& final(self).files@.dom() == old(self).files@.dom()
                    &&& final(self).files@[handle].data@ == st.data@
                    &&& final(self).files@[handle].pos == (if offset is None { (start + n) as usize } else { st.pos })
                    &&& forall|k: usize| k != handle ==> #[trigger] final(self).files@.index(k) == old(self).files@.index(k)
                }
            }),
    {
        let mut state = match self.files.remove(&handle) {
            Some(s) => s,
            None => {
                assert(self.files@ =~= old(self).files@);
                return FileRead { ret: 0, last_error: Some(ERROR_INVALID_HANDLE), data: Vec::new(), out_nbytes: 0 };
            },
        };
        let len = state.data.len();
        let start: usize = match offset {
            None => state.pos,
            Some(o) => if o > usize::MAX as u64 { usize::MAX } else { o as usize },
        };
        let available: usize = if start < len { len - start } else { 0 };
        let count: usize = if available < nbytes as usize { available } else { nbytes as usize };
        if count > 0 && !has_buffer {
            self.files.insert(handle, state);
            assert(self.files@ =~= old(self).files@);
            return FileRead { ret: 0, last_error: Some(ERROR_INVALID_PARAMETER), data: Vec::new(), out_nbytes: 0 };
        }
        let mut out: Vec<u8> = Vec::new();
        if count > 0 {
            let mut i: usize = start;
            while i < start + count
                invariant
                    start <= i <= start + count,
                    start + count <= len,
                    len == state.data@.len(),
                    out@ == state.data@.subrange(start as int, i as int),
                decreases start + count - i,
            {
                out.push(state.data[i]);
                i = i + 1;
                assert(out@ =~= state.data@.subrange(start as int, i as int));
            }
        }
        if count == 0 {
            assert(out@ =~= Seq::<u8>::empty());
        }
        if offset.is_none() {
            state.pos = start + count;
        }
        self.files.insert(handle, state);
        assert(self.files@.dom() =~= old(self).files@.dom());
        FileRead { ret: 1, last_error: None, data: out, out_nbytes: count as u32 }
    }

    /// Moves the position of `handle` relative to its start, its position or
    /// its end. A position before the start is refused; one past the end is
    /// allowed.
    pub fn seek(&mut self, handle: usize, method: u32, distance: i64) -> (r: FileSeek)
        ensures
            !old(self).files@.contains_key(handle) ==> r.ret == 0 && r.last_error == Some(ERROR_INVALID_HANDLE)
                && r.new_pos is None && final(self).files@ == old(self).files@,
            old(self).files@.contains_key(handle) ==> ({
                let st = old(self).files@[handle];
                if method != FILE_BEGIN && method != FILE_CURRENT && method != FILE_END {
                    r.ret == 0 && r.last_error == Some(ERROR_INVALID_PARAMETER) && r.new_pos is None
                        && final(self).files@ == old(self).files@
                } else {
                    let base: int = if method == FILE_BEGIN {
                        0
                    } else if method == FILE_CURRENT {
                        st.pos as i64 as int
                    } else {
                        st.data@.len() as i64 as int
                    };
                    let p = base + distance;
                    if p < 0 || p > i64::MAX {
                        r.ret == 0 && r.last_error == Some(ERROR_NEGATIVE_SEEK) && r.new_pos is None
                            && final(self).files@ == old(self).files@
                    } else {
                        &&& r.ret == 1 && r.last_error is None && r.new_pos == Some(p as i64)
                        &&& final(self).files@ == old(self).files@.insert(handle, FileState { data: final(self).files@[handle].data, pos: p as usize })
                        &&& final(self).files@[handle].data@ == st.data@
                    }
                }
            }),
    {
        let mut state = match self.files.remove(&handle) {
            Some(s) => s,
            None => {
                assert(self.files@ =~= old(self).files@);
                return FileSeek { ret: 0, last_error: Some(ERROR_INVALID_HANDLE), new_pos: None };
            },
        };
        let base: i64 = if method == FILE_BEGIN {
            0
        } else if method == FILE_CURRENT {
            state.pos as i64
        } else if method == FILE_END {
            state.data.len() as i64
        } else {
            self.files.insert(handle, state);
            assert(self.files@ =~= old(self).files@);
            return FileSeek { ret: 0, last_error: Some(ERROR_INVALID_PARAMETER), new_pos: None };
        };
        let sum = base.checked_add(distance);
        match sum {
            Some(p) => {
                if p < 0 {
                    self.files.insert(handle, state);
                    assert(self.files@ =~= old(self).files@);
                    return FileSeek { ret: 0, last_error: Some(ERROR_NEGATIVE_SEEK), new_pos: None };
                }
                state.pos = p as usize;
                self.files.insert(handle, state);
                FileSeek { ret: 1, last_error: None, new_pos: Some(p) }
            },
            None => {
                self.files.insert(handle, state);
                assert(self.files@ =~= old(self).files@);
                FileSeek { ret: 0, last_error: Some(ERROR_NEGATIVE_SEEK), new_pos: None }
            },
        }
    }
}

} // verus!
