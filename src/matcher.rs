//! Resolving window attributes and matching windows against a condition.
use vstd::prelude::*;
use crate::query::{
    condition_for, is_plain, parse_query, query_text, word_of, AttributeKind, Condition,
};
use crate::text::{
    class_bytes, class_component, decode_legacy, decode_utf8_text, legacy_text, non_empty,
    utf8_text,
};

verus! {

/// The raw text properties of one window, as the display server returned them.
/// A property that the window does not carry, or whose request failed, is `None`.
#[derive(Clone, Debug)]
pub struct WindowProperties {
    pub window: u32,
    pub wm_class: Option<Vec<u8>>,
    pub net_wm_name: Option<Vec<u8>>,
    pub wm_name: Option<Vec<u8>>,
}

pub open spec fn bytes_of(o: Option<Vec<u8>>) -> Option<Seq<u8>> {
    match o {
        Some(v) => Some(v@),
        None => None,
    }
}

/// The class of a window: the second WM_CLASS component, decoded, if not empty.
pub open spec fn class_of(w: WindowProperties) -> Option<Seq<char>> {
    match bytes_of(w.wm_class) {
        None => None,
        Some(b) => match class_bytes(b) {
            None => None,
            Some(c) => non_empty(legacy_text(c)),
        },
    }
}

/// The name of a window from _NET_WM_NAME alone: valid UTF-8 and not empty.
pub open spec fn modern_name_of(w: WindowProperties) -> Option<Seq<char>> {
    match bytes_of(w.net_wm_name) {
        None => None,
        Some(b) => match utf8_text(b) {
            None => None,
            Some(t) => non_empty(t),
        },
    }
}

/// The name of a window: _NET_WM_NAME where it yields text, WM_NAME otherwise.
pub open spec fn name_of(w: WindowProperties) -> Option<Seq<char>> {
    if modern_name_of(w) is Some {
        modern_name_of(w)
    } else {
        match bytes_of(w.wm_name) {
            None => None,
            Some(b) => non_empty(legacy_text(b)),
        }
    }
}

pub open spec fn attribute_of(w: WindowProperties, a: AttributeKind) -> Option<Seq<char>> {
    match a {
        AttributeKind::ClassName => class_of(w),
        AttributeKind::WindowName => name_of(w),
    }
}

/// Which raw properties resolving an attribute reads.
#[derive(Clone, Copy, Debug, PartialEq, Eq, Structural)]
pub struct PropertyNeeds {
    pub wm_class: bool,
    pub net_wm_name: bool,
    pub wm_name: bool,
}

pub open spec fn needs_of(a: AttributeKind) -> PropertyNeeds {
    match a {
        AttributeKind::ClassName => PropertyNeeds { wm_class: true, net_wm_name: false, wm_name: false },
        AttributeKind::WindowName => PropertyNeeds { wm_class: false, net_wm_name: true, wm_name: true },
    }
}

/// Two windows that agree on the properties an attribute reads agree on it.
pub open spec fn agree_on(w: WindowProperties, v: WindowProperties, n: PropertyNeeds) -> bool {
    &&& n.wm_class ==> bytes_of(w.wm_class) == bytes_of(v.wm_class)
    &&& n.net_wm_name ==> bytes_of(w.net_wm_name) == bytes_of(v.net_wm_name)
    &&& n.wm_name ==> bytes_of(w.wm_name) == bytes_of(v.wm_name)
}

/// An attribute depends on the properties that it needs and on no other, so
/// those are the only ones worth fetching.
pub proof fn lemma_attribute_reads_only_needs(w: WindowProperties, v: WindowProperties, a: AttributeKind)
    requires
        agree_on(w, v, needs_of(a)),
    ensures
        attribute_of(w, a) == attribute_of(v, a),
{
}

/// The properties to fetch for resolving `attribute`.
pub fn properties_for(attribute: AttributeKind) -> (r: PropertyNeeds)
    ensures
        r == needs_of(attribute),
{
    match attribute {
        AttributeKind::ClassName => PropertyNeeds { wm_class: true, net_wm_name: false, wm_name: false },
        AttributeKind::WindowName => PropertyNeeds { wm_class: false, net_wm_name: true, wm_name: true },
    }
}

/// A window satisfies a condition when the attribute resolves to exactly the value.
pub open spec fn satisfies(w: WindowProperties, c: (AttributeKind, Seq<char>)) -> bool {
    attribute_of(w, c.0) == Some(c.1)
}

/// The first window, in the given order, that satisfies the condition.
pub open spec fn first_match(ws: Seq<WindowProperties>, c: (AttributeKind, Seq<char>)) -> Option<u32>
    decreases ws.len(),
{
    if ws.len() == 0 {
        None
    } else if satisfies(ws[0], c) {
        Some(ws[0].window)
    } else {
        first_match(ws.drop_first(), c)
    }
}

/// The names of the windows that have one, in the given order.
pub open spec fn all_names(ws: Seq<WindowProperties>) -> Seq<Seq<char>>
    decreases ws.len(),
{
    if ws.len() == 0 {
        Seq::empty()
    } else {
        let prev = all_names(ws.drop_last());
        match name_of(ws.last()) {
            Some(t) => prev.push(t),
            None => prev,
        }
    }
}

pub open spec fn has_name(w: WindowProperties) -> bool {
    name_of(w) is Some
}

/// No window of an empty sequence matches, whatever the condition.
pub proof fn lemma_no_window_no_match(c: (AttributeKind, Seq<char>))
    ensures
        first_match(Seq::<WindowProperties>::empty(), c) is None,
{
}

/// Where exactly one window satisfies the condition, that window is found,
/// whatever the other windows hold.
pub proof fn lemma_single_match_found(ws: Seq<WindowProperties>, c: (AttributeKind, Seq<char>), i: int)
    requires
        0 <= i < ws.len(),
        satisfies(ws[i], c),
        forall|j: int| 0 <= j < ws.len() && j != i ==> !satisfies(ws[j], c),
    ensures
        first_match(ws, c) == Some(ws[i].window),
    decreases ws.len(),
{
    if i > 0 {
        assert(!satisfies(ws[0], c));
        let rest = ws.drop_first();
        assert forall|j: int| 0 <= j < rest.len() && j != i - 1 implies !satisfies(rest[j], c) by {
            assert(rest[j] == ws[j + 1]);
        }
        lemma_single_match_found(rest, c, i - 1);
    }
}

/// A _NET_WM_NAME that is not valid UTF-8 leaves the name to WM_NAME.
pub proof fn lemma_name_falls_back(w: WindowProperties)
    requires
        bytes_of(w.net_wm_name) is Some,
        !vstd::utf8::valid_utf8(bytes_of(w.net_wm_name)->0),
    ensures
        name_of(w) == (match bytes_of(w.wm_name) {
            None => None,
            Some(b) => non_empty(legacy_text(b)),
        }),
{
}

/// The names found are those of the windows that have one, one entry per such
/// window, in the order given: as many as there are such windows.
pub proof fn lemma_all_names_skip_unnamed(ws: Seq<WindowProperties>)
    ensures
        all_names(ws) == ws.filter(|w: WindowProperties| has_name(w)).map_values(
            |w: WindowProperties| name_of(w)->0,
        ),
        all_names(ws).len() == ws.filter(|w: WindowProperties| has_name(w)).len(),
    decreases ws.len(),
{
    let p = |w: WindowProperties| has_name(w);
    let f = |w: WindowProperties| name_of(w)->0;
    reveal(Seq::filter);
    if ws.len() > 0 {
        lemma_all_names_skip_unnamed(ws.drop_last());
        let prev = ws.drop_last().filter(p);
        assert(ws.filter(p) == (if p(ws.last()) {
            prev.push(ws.last())
        } else {
            prev
        }));
        if has_name(ws.last()) {
            assert(prev.push(ws.last()).map_values(f) =~= prev.map_values(f).push(f(ws.last())));
        }
    } else {
        assert(ws.filter(p).map_values(f) =~= Seq::empty());
    }
}

pub open spec fn strings_view(v: Seq<String>) -> Seq<Seq<char>> {
    v.map_values(|s: String| s@)
}

fn text_if_non_empty(s: String) -> (r: Option<String>)
    ensures
        r is Some <==> non_empty(s@) is Some,
        r is Some ==> r->0@ == non_empty(s@)->0,
{
    if s.as_str().unicode_len() == 0 {
        None
    } else {
        Some(s)
    }
}

/// Resolves the class of a window.
pub fn resolve_class(w: &WindowProperties) -> (r: Option<String>)
    ensures
        r is Some <==> class_of(*w) is Some,
        r is Some ==> r->0@ == class_of(*w)->0,
{
    match &w.wm_class {
        None => None,
        Some(raw) => match class_component(raw.as_slice()) {
            None => None,
            Some(c) => text_if_non_empty(decode_legacy(c.as_slice())),
        },
    }
}

/// Resolves the name of a window, falling back from _NET_WM_NAME to WM_NAME.
pub fn resolve_name(w: &WindowProperties) -> (r: Option<String>)
    ensures
        r is Some <==> name_of(*w) is Some,
        r is Some ==> r->0@ == name_of(*w)->0,
{
    let modern = match &w.net_wm_name {
        None => None,
        Some(raw) => match decode_utf8_text(raw.as_slice()) {
            None => None,
            Some(t) => text_if_non_empty(t),
        },
    };
    if modern.is_some() {
        return modern;
    }
    match &w.wm_name {
        None => None,
        Some(raw) => text_if_non_empty(decode_legacy(raw.as_slice())),
    }
}

/// Resolves one attribute of a window.
pub fn resolve(w: &WindowProperties, attribute: AttributeKind) -> (r: Option<String>)
    ensures
        r is Some <==> attribute_of(*w, attribute) is Some,
        r is Some ==> r->0@ == attribute_of(*w, attribute)->0,
{
    match attribute {
        AttributeKind::ClassName => resolve_class(w),
        AttributeKind::WindowName => resolve_name(w),
    }
}

/// Tests one window against a condition.
pub fn matches(w: &WindowProperties, cond: &Condition) -> (r: bool)
    ensures
        r == satisfies(*w, cond@),
{
    match resolve(w, cond.attribute) {
        None => false,
        Some(t) => t == cond.value,
    }
}

/// The first window, in the given order, that satisfies the condition.
pub fn find_first(windows: &Vec<WindowProperties>, cond: &Condition) -> (r: Option<u32>)
    ensures
        r == first_match(windows@, cond@),
{
    let ghost ws = windows@;
    let n = windows.len();
    let mut i: usize = 0;
    assert(ws.subrange(0, n as int) =~= ws);
    while i < n
        invariant
            i <= n,
            n == ws.len(),
            ws == windows@,
            first_match(ws, cond@) == first_match(ws.subrange(i as int, n as int), cond@),
        decreases n - i,
    {
        assert(ws.subrange(i as int, n as int).drop_first() =~= ws.subrange(i + 1, n as int));
        if matches(&windows[i], cond) {
            return Some(windows[i].window);
        }
        i = i + 1;
    }
    None
}

/// The names of all windows that have one, in the given order.
pub fn find_all_names(windows: &Vec<WindowProperties>) -> (r: Vec<String>)
    ensures
        strings_view(r@) == all_names(windows@),
{
    let ghost ws = windows@;
    let n = windows.len();
    let mut out: Vec<String> = Vec::new();
    let mut i: usize = 0;
    while i < n
        invariant
            i <= n,
            n == ws.len(),
            ws == windows@,
            strings_view(out@) == all_names(ws.subrange(0, i as int)),
        decreases n - i,
    {
        let ghost before = out@;
        assert(ws.subrange(0, i + 1).drop_last() =~= ws.subrange(0, i as int));
        match resolve_name(&windows[i]) {
            Some(t) => {
                out.push(t);
                assert(strings_view(out@) =~= strings_view(before).push(name_of(ws[i as int])->0));
            },
            None => {},
        }
        i = i + 1;
    }
    assert(ws.subrange(0, n as int) =~= ws);
    out
}

/// Why no window was picked.
#[derive(Clone, Copy, Debug, PartialEq, Eq, Structural)]
pub enum LookupError {
    /// The value does not make a valid query.
    InvalidCondition,
    /// No window satisfies the condition.
    NoMatchingWindow,
}

/// The window picked for `attribute = "value"`, or why there is none.
pub open spec fn lookup(ws: Seq<WindowProperties>, attribute: AttributeKind, value: Seq<char>) -> Result<u32, LookupError> {
    match parse_query(query_text(word_of(attribute), value)) {
        Err(_) => Err(LookupError::InvalidCondition),
        Ok(c) => match first_match(ws, c) {
            Some(w) => Ok(w),
            None => Err(LookupError::NoMatchingWindow),
        },
    }
}

/// Picks the first window whose attribute equals `value`.
pub fn window_by(windows: &Vec<WindowProperties>, attribute: AttributeKind, value: &str) -> (r: Result<u32, LookupError>)
    ensures
        r == lookup(windows@, attribute, value@),
        is_plain(value@) ==> r == (match first_match(windows@, (attribute, value@)) {
            Some(w) => Ok(w),
            None => Err(LookupError::NoMatchingWindow),
        }),
{
    let cond = match condition_for(attribute, value) {
        Ok(c) => c,
        Err(_) => return Err(LookupError::InvalidCondition),
    };
    match find_first(windows, &cond) {
        Some(w) => Ok(w),
        None => Err(LookupError::NoMatchingWindow),
    }
}

/// Picks the first window whose class equals `class`.
pub fn window_by_class(windows: &Vec<WindowProperties>, class: &str) -> (r: Result<u32, LookupError>)
    ensures
        r == lookup(windows@, AttributeKind::ClassName, class@),
{
    window_by(windows, AttributeKind::ClassName, class)
}

/// Picks the first window whose name equals `name`.
pub fn window_by_name(windows: &Vec<WindowProperties>, name: &str) -> (r: Result<u32, LookupError>)
    ensures
        r == lookup(windows@, AttributeKind::WindowName, name@),
{
    window_by(windows, AttributeKind::WindowName, name)
}

} // verus!
