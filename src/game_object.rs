use vstd::prelude::*;

use crate::number::{
    chars_of, parse_signed, parse_u8, parse_unsigned, read_signed, read_u8, read_unsigned,
};

verus! {

/// The value of the first entry of `props` whose key is `key`; empty where
/// no entry has it.
pub open spec fn prop_value(props: Seq<(String, String)>, key: Seq<char>) -> Seq<char>
    decreases props.len(),
{
    if props.len() == 0 {
        seq![]
    } else if props[0].0@ == key {
        props[0].1@
    } else {
        prop_value(props.drop_first(), key)
    }
}

/// Looks a property up in an entity's property list; empty where it is unset.
pub fn get_prop(prop_name: &str, prop_map: &Vec<(String, String)>) -> (r: String)
    ensures
        r@ == prop_value(prop_map@, prop_name@),
{
    let key = prop_name.to_owned();
    let mut i: usize = 0;
    assert(prop_map@.subrange(0, prop_map@.len() as int) =~= prop_map@);
    while i < prop_map.len()
        invariant
            i <= prop_map@.len(),
            key@ == prop_name@,
            prop_value(prop_map@, prop_name@) == prop_value(
                prop_map@.subrange(i as int, prop_map@.len() as int),
                prop_name@,
            ),
        decreases prop_map@.len() - i,
    {
        let ghost rest = prop_map@.subrange(i as int, prop_map@.len() as int);
        assert(rest.drop_first() =~= prop_map@.subrange(i + 1, prop_map@.len() as int));
        assert(rest[0] == prop_map@[i as int]);
        if prop_map[i].0 == key {
            return prop_map[i].1.clone();
        }
        i = i + 1;
    }
    String::new()
}

/// The characters that separate words: Unicode's White_Space property.
pub open spec fn is_white(c: char) -> bool {
    ||| c == ' '
    ||| '\t' <= c && c <= '\r'
    ||| c == '\u{85}'
    ||| c == '\u{a0}'
    ||| c == '\u{1680}'
    ||| '\u{2000}' <= c && c <= '\u{200a}'
    ||| c == '\u{2028}'
    ||| c == '\u{2029}'
    ||| c == '\u{202f}'
    ||| c == '\u{205f}'
    ||| c == '\u{3000}'
}

/// The maximal runs of non-white characters of `s`, in order.
pub open spec fn words(s: Seq<char>) -> Seq<Seq<char>>
    decreases s.len(),
{
    if s.len() == 0 {
        seq![]
    } else {
        let prev = words(s.drop_last());
        if is_white(s.last()) {
            prev
        } else if s.len() >= 2 && !is_white(s[s.len() - 2]) {
            prev.update(prev.len() - 1, prev.last().push(s.last()))
        } else {
            prev.push(seq![s.last()])
        }
    }
}

/// The byte at word `i` of a colour, 0 where it is missing or unreadable.
pub open spec fn color_byte(w: Seq<Seq<char>>, i: int) -> u8 {
    if i < w.len() {
        match parse_u8(w[i]) {
            Some(v) => v,
            None => 0,
        }
    } else {
        0
    }
}

pub open spec fn max_u8(a: u8, b: u8) -> u8 {
    if a >= b {
        a
    } else {
        b
    }
}

/// A colour written as up to four words: the first three bytes are the
/// channels, the fourth the brightest of all four words.
pub open spec fn color_of(s: Seq<char>) -> Option<[u8; 4]> {
    let w = words(s);
    if w.len() > 4 {
        None
    } else {
        Some(
            [
                color_byte(w, 0),
                color_byte(w, 1),
                color_byte(w, 2),
                max_u8(
                    max_u8(color_byte(w, 0), color_byte(w, 1)),
                    max_u8(color_byte(w, 2), color_byte(w, 3)),
                ),
            ],
        )
    }
}

pub fn is_white_char(c: char) -> (r: bool)
    ensures
        r == is_white(c),
{
    c == ' ' || ('\t' <= c && c <= '\r') || c == '\u{85}' || c == '\u{a0}' || c == '\u{1680}' || (
    '\u{2000}' <= c && c <= '\u{200a}') || c == '\u{2028}' || c == '\u{2029}' || c == '\u{202f}'
        || c == '\u{205f}' || c == '\u{3000}'
}

pub open spec fn char_views(v: Seq<Vec<char>>) -> Seq<Seq<char>> {
    v.map_values(|w: Vec<char>| w@)
}

proof fn lemma_words_end(s: Seq<char>)
    requires
        s.len() > 0,
        !is_white(s.last()),
    ensures
        words(s).len() > 0,
    decreases s.len(),
{
    if s.len() >= 2 && !is_white(s[s.len() - 2]) {
        lemma_words_end(s.drop_last());
    }
}

/// Splits `s` into its words.
pub fn split_words(s: &str) -> (r: Vec<Vec<char>>)
    ensures
        char_views(r@) == words(s@),
{
    let n = s.unicode_len();
    let mut out: Vec<Vec<char>> = Vec::new();
    let mut prev_white = true;
    let mut i: usize = 0;
    while i < n
        invariant
            i <= n,
            n == s@.len(),
            char_views(out@) == words(s@.subrange(0, i as int)),
            prev_white == (i == 0 || is_white(s@[i - 1])),
        decreases n - i,
    {
        let ghost pre = s@.subrange(0, i as int);
        let ghost next = s@.subrange(0, i + 1);
        proof {
            assert(next.drop_last() =~= pre);
            assert(next.last() == s@[i as int]);
            if i > 0 {
                assert(next[next.len() - 2] == s@[i - 1]);
                if !is_white(s@[i - 1]) {
                    assert(pre.last() == s@[i - 1]);
                    lemma_words_end(pre);
                }
            }
        }
        let c = s.get_char(i);
        let white = is_white_char(c);
        if !white {
            if prev_white {
                let mut w: Vec<char> = Vec::new();
                w.push(c);
                out.push(w);
                assert(w@ =~= seq![c]);
                assert(char_views(out@) =~= words(next));
            } else {
                let last = out.len() - 1;
                let ghost before = out@;
                let mut w = out.pop().unwrap();
                w.push(c);
                out.push(w);
                assert(char_views(out@) =~= words(next)) by {
                    assert forall|k: int| 0 <= k < last implies out@[k] == before[k] by {}
                }
            }
        } else {
            assert(char_views(out@) =~= words(next));
        }
        prev_white = white;
        i = i + 1;
    }
    assert(s@.subrange(0, n as int) =~= s@);
    out
}

fn byte_at(words: &Vec<Vec<char>>, i: usize) -> (r: u8)
    ensures
        r == color_byte(char_views(words@), i as int),
{
    if i < words.len() {
        match read_u8(&words[i]) {
            Some(v) => v,
            None => 0,
        }
    } else {
        0
    }
}

fn max_byte(a: u8, b: u8) -> (r: u8)
    ensures
        r == max_u8(a, b),
{
    if a >= b {
        a
    } else {
        b
    }
}

/// Reads a colour property: up to four whitespace-separated bytes, missing or
/// unreadable ones taken as 0, the fourth replaced by the brightest of the
/// four. More than four words are refused.
pub fn get_color(color_str: &str) -> (r: Option<[u8; 4]>)
    ensures
        r == color_of(color_str@),
{
    let words = split_words(color_str);
    if words.len() > 4 {
        return None;
    }
    let a = byte_at(&words, 0);
    let b = byte_at(&words, 1);
    let c = byte_at(&words, 2);
    let d = byte_at(&words, 3);
    let m = max_byte(max_byte(a, b), max_byte(c, d));
    Some([a, b, c, m])
}

/// The value of the first entry of `props` whose key is `key`, if any.
pub open spec fn prop_entry(props: Seq<(String, String)>, key: Seq<char>) -> Option<Seq<char>>
    decreases props.len(),
{
    if props.len() == 0 {
        None
    } else if props[0].0@ == key {
        Some(props[0].1@)
    } else {
        prop_entry(props.drop_first(), key)
    }
}

/// Looks a property up in an entity's property list.
pub fn find_prop(prop_name: &str, prop_map: &Vec<(String, String)>) -> (r: Option<String>)
    ensures
        match r {
            Some(v) => prop_entry(prop_map@, prop_name@) == Some(v@),
            None => prop_entry(prop_map@, prop_name@) is None,
        },
{
    let key = prop_name.to_owned();
    let mut i: usize = 0;
    assert(prop_map@.subrange(0, prop_map@.len() as int) =~= prop_map@);
    while i < prop_map.len()
        invariant
            i <= prop_map@.len(),
            key@ == prop_name@,
            prop_entry(prop_map@, prop_name@) == prop_entry(
                prop_map@.subrange(i as int, prop_map@.len() as int),
                prop_name@,
            ),
        decreases prop_map@.len() - i,
    {
        let ghost rest = prop_map@.subrange(i as int, prop_map@.len() as int);
        assert(rest.drop_first() =~= prop_map@.subrange(i + 1, prop_map@.len() as int));
        assert(rest[0] == prop_map@[i as int]);
        if prop_map[i].0 == key {
            return Some(prop_map[i].1.clone());
        }
        i = i + 1;
    }
    None
}

/// The decimal digits of `n`.
pub open spec fn decimal_digits(n: nat) -> Seq<char>
    decreases n,
{
    if n < 10 {
        seq![((48 + n) as u8) as char]
    } else {
        decimal_digits(n / 10).push(((48 + n % 10) as u8) as char)
    }
}

/// The one-character text of a decimal digit.
fn digit_text(d: u8) -> (r: &'static str)
    requires
        d < 10,
    ensures
        r@ == seq![((48 + d) as u8) as char],
{
    let r = if d == 0 {
        proof {
            reveal_strlit("0");
        }
        "0"
    } else if d == 1 {
        proof {
            reveal_strlit("1");
        }
        "1"
    } else if d == 2 {
        proof {
            reveal_strlit("2");
        }
        "2"
    } else if d == 3 {
        proof {
            reveal_strlit("3");
        }
        "3"
    } else if d == 4 {
        proof {
            reveal_strlit("4");
        }
        "4"
    } else if d == 5 {
        proof {
            reveal_strlit("5");
        }
        "5"
    } else if d == 6 {
        proof {
            reveal_strlit("6");
        }
        "6"
    } else if d == 7 {
        proof {
            reveal_strlit("7");
        }
        "7"
    } else if d == 8 {
        proof {
            reveal_strlit("8");
        }
        "8"
    } else {
        proof {
            reveal_strlit("9");
        }
        "9"
    };
    assert(r@ =~= seq![((48 + d) as u8) as char]);
    r
}

/// The decimal digits of `n`, without sign or leading zeros.
fn decimal(n: u8) -> (r: String)
    ensures
        r@ == decimal_digits(n as nat),
{
    let mut text = "".to_owned();
    proof {
        reveal_strlit("");
        assert(text@ =~= Seq::<char>::empty());
    }
    if n >= 100 {
        text.append(digit_text(n / 100));
    }
    if n >= 10 {
        text.append(digit_text(n / 10 % 10));
    }
    text.append(digit_text(n % 10));
    proof {
        let m = n as nat;
        if m >= 100 {
            assert(decimal_digits(m / 100) == seq![((48 + m / 100) as u8) as char]);
            assert((m / 10) / 10 == m / 100);
            assert((m / 10) % 10 == m / 10 % 10);
            assert(decimal_digits(m / 10) == decimal_digits(m / 100).push(
                ((48 + (m / 10) % 10) as u8) as char,
            ));
        } else if m >= 10 {
            assert(decimal_digits(m / 10) == seq![((48 + m / 10) as u8) as char]);
        }
        assert(text@ =~= decimal_digits(m));
    }
    text
}

/// `prefix`, the decimal `count`, then `suffix`: the key of a numbered property.
pub open spec fn numbered_key(prefix: Seq<char>, count: nat, suffix: Seq<char>) -> Seq<char> {
    prefix + decimal_digits(count) + suffix
}

fn numbered(prefix: &str, count: u8, suffix: &str) -> (r: String)
    ensures
        r@ == numbered_key(prefix@, count as nat, suffix@),
{
    let mut key = prefix.to_owned();
    let digits = decimal(count);
    key.append(digits.as_str());
    key.append(suffix);
    key
}

/// One magic effect as the entity's properties describe it.
#[derive(Clone, Copy, Debug, PartialEq, Eq, Structural)]
pub struct EffectRecord {
    pub magic_effect: i16,
    pub skill: i8,
    pub attribute: i8,
    pub range: u32,
    pub area: u32,
    pub duration: u32,
    pub min_magnitude: u32,
    pub max_magnitude: u32,
}

pub open spec fn effect_key(count: nat, field: Seq<char>) -> Seq<char> {
    numbered_key("Effect_"@, count, field)
}

/// A `u32` property, 0 where it is missing or unreadable.
pub open spec fn prop_u32(props: Seq<(String, String)>, key: Seq<char>) -> u32 {
    match parse_unsigned(prop_value(props, key), u32::MAX as int) {
        Some(v) => v as u32,
        None => 0,
    }
}

/// An `i8` property, 0 where it is missing or unreadable.
pub open spec fn prop_i8(props: Seq<(String, String)>, key: Seq<char>) -> i8 {
    match parse_signed(prop_value(props, key), i8::MIN as int, i8::MAX as int) {
        Some(v) => v as i8,
        None => 0,
    }
}

/// The effects that act on a skill.
pub open spec fn is_skill_effect(t: int) -> bool {
    t == 21 || t == 26 || t == 78 || t == 83 || t == 89
}

/// The effects that act on an attribute.
pub open spec fn is_attribute_effect(t: int) -> bool {
    t == 17 || t == 22 || t == 74 || t == 79 || t == 85
}

/// The magic type of effect `count`; -1 (no effect) where it is missing or
/// unreadable.
pub open spec fn effect_type(props: Seq<(String, String)>, count: nat) -> int {
    match parse_signed(prop_value(props, effect_key(count, "_MagicType"@)), i16::MIN as int, i16::MAX as int) {
        Some(v) => v,
        None => -1,
    }
}

/// Effect `count`: a single magnitude stands for both bounds; a skill or an
/// attribute is read only for the effects that act on one, and is -1 otherwise.
pub open spec fn effect_at(props: Seq<(String, String)>, count: nat) -> EffectRecord {
    let t = effect_type(props, count);
    let single = prop_entry(props, effect_key(count, "_Magnitude"@));
    let one = prop_u32(props, effect_key(count, "_Magnitude"@));
    EffectRecord {
        magic_effect: t as i16,
        skill: if is_skill_effect(t) {
            prop_i8(props, effect_key(count, "_Skill"@))
        } else {
            -1i8
        },
        attribute: if is_attribute_effect(t) {
            prop_i8(props, effect_key(count, "_Attribute"@))
        } else {
            -1i8
        },
        range: prop_u32(props, effect_key(count, "_Range"@)),
        area: prop_u32(props, effect_key(count, "_Area"@)),
        duration: prop_u32(props, effect_key(count, "_Duration"@)),
        min_magnitude: if single is Some {
            one
        } else {
            prop_u32(props, effect_key(count, "_MagnitudeMin"@))
        },
        max_magnitude: if single is Some {
            one
        } else {
            prop_u32(props, effect_key(count, "_MagnitudeMax"@))
        },
    }
}

/// The effects numbered 1 to `k`, skipping those with no magic type.
pub open spec fn effects_upto(props: Seq<(String, String)>, k: nat) -> Seq<EffectRecord>
    decreases k,
{
    if k == 0 {
        seq![]
    } else {
        let prev = effects_upto(props, (k - 1) as nat);
        if effect_type(props, k) == -1 {
            prev
        } else {
            prev.push(effect_at(props, k))
        }
    }
}

fn read_prop_u32(props: &Vec<(String, String)>, key: &String) -> (r: u32)
    ensures
        r == prop_u32(props@, key@),
{
    match read_unsigned(get_prop(key.as_str(), props).as_str(), 4294967295) {
        Some(v) => v as u32,
        None => 0,
    }
}

fn read_prop_i8(props: &Vec<(String, String)>, key: &String) -> (r: i8)
    ensures
        r == prop_i8(props@, key@),
{
    match read_signed(get_prop(key.as_str(), props).as_str(), -128, 127) {
        Some(v) => v as i8,
        None => 0,
    }
}

fn read_effect_type(props: &Vec<(String, String)>, count: u8) -> (r: i16)
    ensures
        r as int == effect_type(props@, count as nat),
{
    let key = numbered("Effect_", count, "_MagicType");
    match read_signed(get_prop(key.as_str(), props).as_str(), -32768, 32767) {
        Some(v) => v as i16,
        None => -1,
    }
}

fn read_effect(props: &Vec<(String, String)>, count: u8, t: i16) -> (r: EffectRecord)
    requires
        t as int == effect_type(props@, count as nat),
    ensures
        r == effect_at(props@, count as nat),
{
    let magnitude = numbered("Effect_", count, "_Magnitude");
    let single = find_prop(magnitude.as_str(), props);
    let (min_magnitude, max_magnitude) = match single {
        Some(_) => {
            let one = read_prop_u32(props, &magnitude);
            (one, one)
        },
        None => (
            read_prop_u32(props, &numbered("Effect_", count, "_MagnitudeMin")),
            read_prop_u32(props, &numbered("Effect_", count, "_MagnitudeMax")),
        ),
    };
    let skill: i8 = if t == 21 || t == 26 || t == 78 || t == 83 || t == 89 {
        read_prop_i8(props, &numbered("Effect_", count, "_Skill"))
    } else {
        -1
    };
    let attribute: i8 = if t == 17 || t == 22 || t == 74 || t == 79 || t == 85 {
        read_prop_i8(props, &numbered("Effect_", count, "_Attribute"))
    } else {
        -1
    };
    EffectRecord {
        magic_effect: t,
        skill,
        attribute,
        range: read_prop_u32(props, &numbered("Effect_", count, "_Range")),
        area: read_prop_u32(props, &numbered("Effect_", count, "_Area")),
        duration: read_prop_u32(props, &numbered("Effect_", count, "_Duration")),
        min_magnitude,
        max_magnitude,
    }
}

/// The effects numbered 1 to `effects_size` that the entity's properties
/// give, in order.
pub fn collect_effects(prop_map: &Vec<(String, String)>, effects_size: u8) -> (r: Vec<EffectRecord>)
    ensures
        r@ == effects_upto(prop_map@, effects_size as nat),
{
    let mut effects: Vec<EffectRecord> = Vec::new();
    let mut count: u16 = 1;
    while count <= effects_size as u16
        invariant
            1 <= count <= effects_size as u16 + 1,
            effects@ == effects_upto(prop_map@, (count - 1) as nat),
        decreases effects_size as u16 + 1 - count,
    {
        let c = count as u8;
        let t = read_effect_type(prop_map, c);
        if t != -1 {
            let e = read_effect(prop_map, c, t);
            effects.push(e);
        }
        count = count + 1;
    }
    effects
}

/// One worn body part slot.
pub struct BipedRecord {
    pub biped_object_type: u8,
    pub male_bodypart: String,
    pub female_bodypart: String,
}

pub open spec fn biped_view(b: BipedRecord) -> (u8, Seq<char>, Seq<char>) {
    (b.biped_object_type, b.male_bodypart@, b.female_bodypart@)
}

/// The slots numbered 1 to `k` that have a slot type: the type read as a
/// byte (0 where unreadable), and both body parts (empty where unset).
pub open spec fn bipeds_upto(props: Seq<(String, String)>, k: nat) -> Seq<(u8, Seq<char>, Seq<char>)>
    decreases k,
{
    if k == 0 {
        seq![]
    } else {
        let prev = bipeds_upto(props, (k - 1) as nat);
        match prop_entry(props, numbered_key("SlotType"@, k, seq![])) {
            Some(v) => prev.push(
                (
                    match parse_u8(v) {
                        Some(x) => x,
                        None => 0,
                    },
                    prop_value(props, numbered_key("male_part"@, k, seq![])),
                    prop_value(props, numbered_key("female_part"@, k, seq![])),
                ),
            ),
            None => prev,
        }
    }
}

/// The body part slots 1 to 6 that the entity's properties give, in order.
pub fn collect_biped_objects(prop_map: &Vec<(String, String)>) -> (r: Vec<BipedRecord>)
    ensures
        r@.map_values(|b: BipedRecord| biped_view(b)) == bipeds_upto(prop_map@, 6),
{
    let mut out: Vec<BipedRecord> = Vec::new();
    let mut count: u8 = 1;
    while count < 7
        invariant
            1 <= count <= 7,
            out@.map_values(|b: BipedRecord| biped_view(b)) == bipeds_upto(
                prop_map@,
                (count - 1) as nat,
            ),
        decreases 7 - count,
    {
        let slot_key = numbered("SlotType", count, "");
        proof {
            reveal_strlit("");
            assert(""@ =~= Seq::<char>::empty());
        }
        match find_prop(slot_key.as_str(), prop_map) {
            Some(slot) => {
                let kind = match read_u8(&chars_of(slot.as_str())) {
                    Some(x) => x,
                    None => 0,
                };
                let male = get_prop(numbered("male_part", count, "").as_str(), prop_map);
                let female = get_prop(numbered("female_part", count, "").as_str(), prop_map);
                let ghost before = out@;
                out.push(BipedRecord { biped_object_type: kind, male_bodypart: male, female_bodypart: female });
                assert(out@.map_values(|b: BipedRecord| biped_view(b)) =~= before.map_values(
                    |b: BipedRecord| biped_view(b),
                ).push(biped_view(out@.last())));
            },
            None => {},
        }
        count = count + 1;
    }
    out
}

} // verus!
