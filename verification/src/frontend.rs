//! The macro front-end surface.
//!
//! User code writes a borrow selector list such as `&<mut a, b, 'x c>` in
//! front of a struct name. The front-end parses that surface syntax from a
//! token list, decides between the value form (an expression is being
//! narrowed) and the type form (a reference-struct type is being named), and
//! resolves the selector list into one capability slot per field: a `*`
//! selector covers every field, later selectors override earlier ones, and
//! fields named by no selector stay hidden.

use vstd::prelude::*;
use vstd::string::StrSliceExecFns;

verus! {

/// One surface token of the borrow selector syntax.
#[derive(Debug, Clone, PartialEq, Eq)]
pub enum Tok {
    /// `_`: disables usage-tracking warnings for this call.
    Underscore,
    /// `&`: the reference (type) form.
    Amp,
    /// A lifetime, without the leading tick.
    Life(String),
    /// The keyword `mut`.
    KwMut,
    /// `*`: every remaining field.
    Star,
    /// `<`, opening a selector list.
    AngleOpen,
    /// `>`, closing a selector list.
    AngleClose,
    /// `,` between selectors.
    Comma,
    /// An identifier: a field name or the target struct name.
    Ident(String),
}

/// One field selector of a borrow list.
#[derive(Debug, Clone)]
pub enum Selector {
    /// A named field, with an optional lifetime and mutability.
    Ident { lifetime: Option<String>, is_mut: bool, ident: String },
    /// `*`: all fields not named otherwise.
    Star { lifetime: Option<String>, is_mut: bool },
}

/// The selector part of a borrow expression.
#[derive(Debug, Clone)]
pub enum Selectors {
    /// An explicit (possibly empty) selector list.
    List(Vec<Selector>),
    /// The bare `mut` form: every field, mutably.
    All,
}

/// A parsed borrow expression.
#[derive(Debug, Clone)]
pub struct PartialInput {
    /// Whether the `_` prefix (no usage-tracking warnings) was present.
    pub has_underscore: bool,
    /// Whether the `&` prefix (reference form) was present.
    pub has_amp: bool,
    /// The default lifetime for the selectors, if one was written.
    pub lifetime: Option<String>,
    /// The field selectors.
    pub selectors: Selectors,
    /// The target struct or variable name.
    pub target: String,
}

/// The capability a resolved slot grants, with the lifetime it carries.
#[derive(Debug, Clone)]
pub enum Slot {
    /// The field is inaccessible.
    Hidden,
    /// Shared read-only access with the given lifetime.
    Ref { lifetime: String },
    /// Exclusive mutable access with the given lifetime.
    Mut { lifetime: String },
}

/// Whether a selector applies to the named field.
pub open spec fn selector_matches(sel: Selector, field: Seq<char>) -> bool {
    match sel {
        Selector::Star { .. } => true,
        Selector::Ident { ident, .. } => ident@ == field,
    }
}

/// The lifetime a selector carries, or the default.
pub open spec fn lifetime_or(l: Option<String>, dlt: Seq<char>) -> Seq<char> {
    match l {
        Some(s) => s@,
        None => dlt,
    }
}

/// What the last selector matching `field` grants: whether anything was
/// granted at all, whether mutably, and under which lifetime. A field no
/// selector names gets nothing.
pub open spec fn resolve_spec(selectors: Seq<Selector>, field: Seq<char>, dlt: Seq<char>) -> (
    bool,
    bool,
    Seq<char>,
)
    decreases selectors.len(),
{
    if selectors.len() == 0 {
        (false, false, dlt)
    } else if selector_matches(selectors.last(), field) {
        match selectors.last() {
            Selector::Star { lifetime, is_mut } => (true, is_mut, lifetime_or(lifetime, dlt)),
            Selector::Ident { lifetime, is_mut, .. } => (
                true,
                is_mut,
                lifetime_or(lifetime, dlt),
            ),
        }
    } else {
        resolve_spec(selectors.drop_last(), field, dlt)
    }
}

/// Whether an executable slot is the one a resolution describes.
pub open spec fn slot_is(slot: Slot, d: (bool, bool, Seq<char>)) -> bool {
    if !d.0 {
        slot is Hidden
    } else if d.1 {
        slot matches Slot::Mut { lifetime } && lifetime@ == d.2
    } else {
        slot matches Slot::Ref { lifetime } && lifetime@ == d.2
    }
}

/// Clones a string, keeping its characters.
fn clone_str(s: &String) -> (r: String)
    ensures
        r@ == s@,
{
    s.clone()
}

/// Resolves a selector list against the fields of a struct: each field gets
/// what the last selector matching it grants (`*` matches every field,
/// explicit names override it in either direction, the last mention wins),
/// and stays hidden when nothing names it.
pub fn resolve_selectors(fields: &Vec<String>, selectors: &Vec<Selector>, default_lifetime: &str)
    -> (r: Vec<Slot>)
    ensures
        r@.len() == fields@.len(),
        forall|i: int|
            0 <= i < fields@.len() ==> slot_is(
                #[trigger] r@[i],
                resolve_spec(selectors@, fields@[i]@, default_lifetime@),
            ),
{
    let mut r: Vec<Slot> = Vec::new();
    let n = fields.len();
    let mut i: usize = 0;
    while i < n
        invariant
            i <= n,
            n == fields@.len(),
            r@.len() == i,
            forall|k: int|
                0 <= k < i ==> slot_is(
                    #[trigger] r@[k],
                    resolve_spec(selectors@, fields@[k]@, default_lifetime@),
                ),
        decreases n - i,
    {
        let slot = resolve_one(&fields[i], selectors, default_lifetime);
        r.push(slot);
        i = i + 1;
    }
    r
}

/// An ASCII lowercase letter, uppercased; every other character, ASCII or
/// not, passes through unchanged. Capitalization is deliberately
/// ASCII-only: field names beyond ASCII keep their spelling in the
/// generated type-parameter names, so that the mapping stays a stated,
/// verifiable function rather than a locale-sized table.
pub open spec fn to_upper(c: char) -> char {
    if 97 <= (c as u32) && (c as u32) <= 122 {
        (((c as u32) - 32) as u8) as char
    } else {
        c
    }
}

/// A snake_case name turned CamelCase: underscores are dropped and the
/// character after each (and the first character) is uppercased, with
/// ASCII-only capitalization as [`to_upper`] states.
pub open spec fn camel_rec(s: Seq<char>, at_start: bool) -> Seq<char>
    decreases s.len(),
{
    if s.len() == 0 {
        Seq::empty()
    } else if s[0] == '_' {
        camel_rec(s.skip(1), true)
    } else if at_start {
        seq![to_upper(s[0])] + camel_rec(s.skip(1), false)
    } else {
        seq![s[0]] + camel_rec(s.skip(1), false)
    }
}

/// The CamelCase spelling of a snake_case name.
pub open spec fn camel_of(s: Seq<char>) -> Seq<char> {
    camel_rec(s, true)
}

/// Uppercases an ASCII lowercase letter.
fn char_to_upper(c: char) -> (r: char)
    ensures
        r == to_upper(c),
{
    let v = c as u32;
    if 97 <= v && v <= 122 {
        ((v - 32) as u8) as char
    } else {
        c
    }
}

/// Relies on `String::push`: appends exactly the given character.
#[verifier::external_body]
fn push_char(s: &mut String, c: char)
    ensures
        final(s)@ == old(s)@.push(c),
{
    s.push(c);
}

/// Turns a snake_case field name into the CamelCase stem of its generated
/// type parameter. Capitalization is ASCII-only ([`to_upper`]); a
/// non-ASCII initial keeps its spelling.
pub fn snake_to_camel(s: &str) -> (r: String)
    ensures
        r@ =~= camel_of(s@),
{
    let n = s.unicode_len();
    let mut r = String::new();
    let mut at_start: bool = true;
    let mut i: usize = 0;
    proof {
        assert(s@.skip(0) =~= s@);
    }
    while i < n
        invariant
            i <= n,
            n == s@.len(),
            r@ + camel_rec(s@.skip(i as int), at_start) =~= camel_of(s@),
        decreases n - i,
    {
        let c = s.get_char(i);
        proof {
            assert(s@.skip(i as int)[0] == s@[i as int]);
            assert(s@.skip(i as int).skip(1) =~= s@.skip(i + 1));
        }
        if c == '_' {
            at_start = true;
        } else {
            let u = if at_start {
                char_to_upper(c)
            } else {
                c
            };
            push_char(&mut r, u);
            at_start = false;
        }
        i = i + 1;
    }
    proof {
        assert(s@.skip(n as int).len() == 0);
        assert(r@ + Seq::<char>::empty() =~= r@);
    }
    r
}

/// Prefixes a name with the marker of derive-internal identifiers.
pub fn internal(s: &str) -> (r: String)
    ensures
        r@ =~= "__"@ + s@,
{
    let mut r = ("__").to_owned();
    r.append(s);
    r
}

/// Resolves one field against the selector list, scanning for the last
/// selector that matches it.
fn resolve_one(field: &String, selectors: &Vec<Selector>, default_lifetime: &str) -> (r: Slot)
    ensures
        slot_is(r, resolve_spec(selectors@, field@, default_lifetime@)),
{
    let mut j = selectors.len();
    proof {
        assert(selectors@.take(selectors@.len() as int) =~= selectors@);
    }
    while j > 0
        invariant
            j <= selectors@.len(),
            resolve_spec(selectors@, field@, default_lifetime@) == resolve_spec(
                selectors@.take(j as int),
                field@,
                default_lifetime@,
            ),
        decreases j,
    {
        let matched = match &selectors[j - 1] {
            Selector::Star { .. } => true,
            Selector::Ident { ident, .. } => *ident == *field,
        };
        proof {
            assert(selectors@.take(j as int).len() == j);
            assert(selectors@.take(j as int).last() == selectors@[j - 1]);
            assert(selectors@.take(j as int).drop_last() =~= selectors@.take(j - 1));
            assert(matched == selector_matches(selectors@[j - 1], field@));
        }
        if matched {
            let (lifetime, is_mut) = match &selectors[j - 1] {
                Selector::Star { lifetime, is_mut } => (lifetime, *is_mut),
                Selector::Ident { lifetime, is_mut, .. } => (lifetime, *is_mut),
            };
            let lt = match lifetime {
                Some(l) => clone_str(l),
                None => default_lifetime.to_owned(),
            };
            if is_mut {
                return Slot::Mut { lifetime: lt };
            } else {
                return Slot::Ref { lifetime: lt };
            }
        }
        j = j - 1;
    }
    proof {
        assert(selectors@.take(0) =~= Seq::<Selector>::empty());
    }
    Slot::Hidden
}

/// A name starting with an ASCII lowercase letter, which the front-end
/// reads as a variable rather than a type.
pub open spec fn is_lower_start(s: Seq<char>) -> bool {
    s.len() > 0 && 97 <= (s[0] as u32) && (s[0] as u32) <= 122
}

/// The expansion a borrow expression produces.
#[derive(Debug, Clone)]
pub enum Expansion {
    /// The target is a variable: narrow the value itself,
    /// `&mut target.partial_borrow()`.
    ValueForm { target: String },
    /// The bare `mut` form over a type: every field as a mutable reference,
    /// under the given default lifetime.
    AllFieldsMut { lifetime: String, target: String },
    /// The selector-list form over a type: an invocation of the target's
    /// generated macro, carrying the tracking flag, whether a `&mut`
    /// reference prefix is produced, the default lifetime, and the
    /// selectors for the macro to resolve against the field list.
    MacroCall {
        target: String,
        track_enabled: bool,
        has_ref_prefix: bool,
        lifetime: String,
        selectors: Vec<Selector>,
    },
}

/// Expands a parsed borrow expression. A lowercase target is a variable and
/// gives the value form, whatever the selectors say; otherwise the bare
/// `mut` form gives the all-fields-mutable type, and a selector list gives
/// the generated macro's invocation. The usage-tracking flag is on unless
/// the `_` prefix was written; the default lifetime is `_` unless one was
/// written.
pub fn expand_partial(input: PartialInput) -> (r: Expansion)
    ensures
        is_lower_start(input.target@) ==> (r matches Expansion::ValueForm { target } && target@
            == input.target@),
        !is_lower_start(input.target@) && input.selectors is All ==> (r
            matches Expansion::AllFieldsMut { lifetime, target } && (target@ == input.target@
            && lifetime@ == lifetime_or(input.lifetime, "_"@))),
        !is_lower_start(input.target@) ==> (input.selectors matches Selectors::List(sels) ==> (r
            matches Expansion::MacroCall {
            target,
            track_enabled,
            has_ref_prefix,
            lifetime,
            selectors,
        } && (target@ == input.target@ && track_enabled == !input.has_underscore
            && has_ref_prefix == input.has_amp && lifetime@ == lifetime_or(input.lifetime, "_"@)
            && selectors == sels))),
{
    let PartialInput { has_underscore, has_amp, lifetime, selectors, target } = input;
    let lower = is_lower_start_exec(&target);
    if lower {
        Expansion::ValueForm { target }
    } else {
        let lt = match lifetime {
            Some(l) => l,
            None => ("_").to_owned(),
        };
        match selectors {
            Selectors::All => Expansion::AllFieldsMut { lifetime: lt, target },
            Selectors::List(sels) => Expansion::MacroCall {
                target,
                track_enabled: !has_underscore,
                has_ref_prefix: has_amp,
                lifetime: lt,
                selectors: sels,
            },
        }
    }
}

/// Decides whether a name starts with an ASCII lowercase letter.
fn is_lower_start_exec(s: &String) -> (r: bool)
    ensures
        r == is_lower_start(s@),
{
    let n = s.as_str().unicode_len();
    if n == 0 {
        false
    } else {
        let c = s.as_str().get_char(0);
        let v = c as u32;
        97 <= v && v <= 122
    }
}

/// The spec-level view of one selector: its lifetime, its mutability, and
/// its field name (`None` for the `*` selector).
pub open spec fn sel_view(s: Selector) -> (Option<Seq<char>>, bool, Option<Seq<char>>) {
    match s {
        Selector::Ident { lifetime, is_mut, ident } => (
            opt_str_view(lifetime),
            is_mut,
            Some(ident@),
        ),
        Selector::Star { lifetime, is_mut } => (opt_str_view(lifetime), is_mut, None),
    }
}

/// The characters of an optional string.
pub open spec fn opt_str_view(l: Option<String>) -> Option<Seq<char>> {
    match l {
        Some(s) => Some(s@),
        None => None,
    }
}

/// The spec-level views of a selector list, in order.
pub open spec fn sels_views(s: Seq<Selector>) -> Seq<(Option<Seq<char>>, bool, Option<Seq<char>>)> {
    s.map_values(|x: Selector| sel_view(x))
}

/// The selector-list grammar, from position `i` (just inside the opening
/// angle bracket): each selector is an optional lifetime, an optional
/// `mut`, then `*` or a field name, with an optional comma after it; the
/// list ends at the closing angle bracket, which may also stand where a
/// selector was expected. Yields the selector views in source order and
/// the position after the closing bracket, or nothing when the list never
/// closes.
pub open spec fn parse_sel_list_spec(toks: Seq<Tok>, i: int) -> Option<
    (Seq<(Option<Seq<char>>, bool, Option<Seq<char>>)>, int),
>
    decreases toks.len() - i,
{
    if i < 0 || i >= toks.len() {
        None
    } else if toks[i] is AngleClose {
        Some((Seq::empty(), i + 1))
    } else {
        let (lt, i1) = if toks[i] is Life {
            (Some(toks[i]->Life_0@), i + 1)
        } else {
            (None, i)
        };
        let (m, i2) = if i1 < toks.len() && toks[i1] is KwMut {
            (true, i1 + 1)
        } else {
            (false, i1)
        };
        if i2 < toks.len() && toks[i2] is Star {
            let i3 = i2 + 1;
            let i4 = if i3 < toks.len() && toks[i3] is Comma {
                i3 + 1
            } else {
                i3
            };
            match parse_sel_list_spec(toks, i4) {
                Some(pr) => Some((seq![(lt, m, None)] + pr.0, pr.1)),
                None => None,
            }
        } else if i2 < toks.len() && toks[i2] is Ident {
            let id = toks[i2]->Ident_0@;
            let i3 = i2 + 1;
            let i4 = if i3 < toks.len() && toks[i3] is Comma {
                i3 + 1
            } else {
                i3
            };
            match parse_sel_list_spec(toks, i4) {
                Some(pr) => Some((seq![(lt, m, Some(id))] + pr.0, pr.1)),
                None => None,
            }
        } else if i2 < toks.len() && toks[i2] is AngleClose {
            Some((Seq::empty(), i2 + 1))
        } else {
            None
        }
    }
}

/// Parses a borrow expression from its tokens: an optional `_`, an optional
/// `&`, an optional default lifetime, then either the keyword `mut`, or a
/// selector list in angle brackets, or nothing, and finally the target
/// name, which must end the input. Anything else is rejected.
pub fn parse_partial_input(toks: &Vec<Tok>) -> (r: Option<PartialInput>)
    ensures
        toks@.len() == 1 && toks@[0] is Ident ==> r is Some,
        toks@.len() == 3 && toks@[0] is Amp && toks@[1] is KwMut && toks@[2] is Ident ==> r
            is Some,
        r matches Some(p) ==> ({
            let i0: int = if p.has_underscore {
                1
            } else {
                0
            };
            let i1: int = if p.has_amp {
                i0 + 1
            } else {
                i0
            };
            &&& p.has_underscore == (toks@.len() > 0 && toks@[0] is Underscore)
            &&& p.has_amp == (i0 < toks@.len() && toks@[i0] is Amp)
            &&& (p.lifetime matches Some(l) ==> (i1 < toks@.len() && (toks@[i1]
                matches Tok::Life(s) && l@ == s@)))
            &&& (p.lifetime is None ==> !(i1 < toks@.len() && toks@[i1] is Life))
            &&& ({
                let i2: int = if p.lifetime is Some {
                    i1 + 1
                } else {
                    i1
                };
                &&& (p.selectors is All) == (i2 < toks@.len() && toks@[i2] is KwMut)
                &&& (i2 < toks@.len() && toks@[i2] is AngleOpen ==> (p.selectors
                    matches Selectors::List(sels) && (parse_sel_list_spec(toks@, i2 + 1)
                    matches Some(pr) && sels_views(sels@) =~= pr.0 && pr.1 == toks@.len()
                    - 1)))
                &&& (!(i2 < toks@.len() && (toks@[i2] is KwMut || toks@[i2] is AngleOpen))
                    ==> (p.selectors matches Selectors::List(sels) && sels@.len() == 0))
            })
            &&& (toks@.last() matches Tok::Ident(id) && p.target@ == id@)
        }),
{
    let n = toks.len();
    let mut i: usize = 0;
    let has_underscore = if i < n && tok_is_underscore(&toks[i]) {
        i = i + 1;
        true
    } else {
        false
    };
    let has_amp = if i < n && tok_is_amp(&toks[i]) {
        i = i + 1;
        true
    } else {
        false
    };
    let lifetime = if i < n {
        match &toks[i] {
            Tok::Life(l) => {
                let l = clone_str(l);
                i = i + 1;
                Some(l)
            },
            _ => None,
        }
    } else {
        None
    };
    let ghost i2 = i as int;
    let selectors = if i < n && tok_is_kw_mut(&toks[i]) {
        i = i + 1;
        Selectors::All
    } else if i < n && tok_is_angle_open(&toks[i]) {
        i = i + 1;
        let ghost sel_start = i as int;
        let mut sels: Vec<Selector> = Vec::new();
        let mut closed = false;
        proof {
            assert(sels_views(sels@) =~= Seq::<(Option<Seq<char>>, bool, Option<Seq<char>>)>::empty());
        }
        while !closed
            invariant
                i <= n,
                n == toks@.len(),
                !(toks@.len() == 1 && toks@[0] is Ident),
                !(toks@.len() == 3 && toks@[0] is Amp && toks@[1] is KwMut && toks@[2]
                    is Ident),
                !closed ==> ({
                    &&& (parse_sel_list_spec(toks@, sel_start) is Some <==> parse_sel_list_spec(
                        toks@,
                        i as int,
                    ) is Some)
                    &&& (parse_sel_list_spec(toks@, sel_start) matches Some(pr) ==> (
                    parse_sel_list_spec(toks@, i as int) matches Some(pr2) && pr.0
                        =~= sels_views(sels@) + pr2.0 && pr.1 == pr2.1))
                }),
                closed ==> (parse_sel_list_spec(toks@, sel_start) matches Some(pr) && (pr.0
                    =~= sels_views(sels@) && pr.1 == i)),
            decreases n - i,
        {
            let ghost old_i = i as int;
            let ghost old_sels = sels@;
            if i >= n {
                return None;
            }
            if tok_is_angle_close(&toks[i]) {
                i = i + 1;
                closed = true;
                proof {
                    assert(parse_sel_list_spec(toks@, old_i) matches Some(pr2) && (pr2.0
                        =~= Seq::empty() && pr2.1 == old_i + 1));
                }
            } else {
                let sel_lifetime = match &toks[i] {
                    Tok::Life(l) => {
                        let l = clone_str(l);
                        i = i + 1;
                        Some(l)
                    },
                    _ => None,
                };
                let ghost i1g = i as int;
                let is_mut = if i < n && tok_is_kw_mut(&toks[i]) {
                    i = i + 1;
                    true
                } else {
                    false
                };
                let ghost i2g = i as int;
                let ghost pushed_view = (opt_str_view(sel_lifetime), is_mut, if i2g
                    < toks@.len() && toks@[i2g] is Ident {
                    Some(toks@[i2g]->Ident_0@)
                } else {
                    None::<Seq<char>>
                });
                if i < n && tok_is_star(&toks[i]) {
                    i = i + 1;
                    sels.push(Selector::Star { lifetime: sel_lifetime, is_mut });
                } else {
                    let ident = if i < n {
                        match &toks[i] {
                            Tok::Ident(id) => Some(clone_str(id)),
                            _ => None,
                        }
                    } else {
                        None
                    };
                    match ident {
                        Some(id) => {
                            i = i + 1;
                            sels.push(
                                Selector::Ident { lifetime: sel_lifetime, is_mut, ident: id },
                            );
                        },
                        None => {
                            // a failed selector ends the list, which must
                            // close right here
                            if i < n && tok_is_angle_close(&toks[i]) {
                                i = i + 1;
                                closed = true;
                                proof {
                                    assert(parse_sel_list_spec(toks@, old_i) matches Some(pr2)
                                        && (pr2.0 =~= Seq::empty() && pr2.1 == i2g + 1));
                                }
                            } else {
                                proof {
                                    assert(parse_sel_list_spec(toks@, old_i) is None);
                                }
                                return None;
                            }
                        },
                    }
                }
                if !closed && i < n && tok_is_comma(&toks[i]) {
                    i = i + 1;
                }
                if !closed {
                    proof {
                        assert(sels@ =~= old_sels.push(sels@.last()));
                        assert(sel_view(sels@.last()) == pushed_view);
                        assert(sels_views(sels@) =~= sels_views(old_sels).push(pushed_view));
                        assert(parse_sel_list_spec(toks@, old_i) matches Some(pr2) ==> (
                        parse_sel_list_spec(toks@, i as int) matches Some(pr3) && pr2.0
                            =~= seq![pushed_view] + pr3.0 && pr2.1 == pr3.1));
                        assert(parse_sel_list_spec(toks@, old_i) is Some
                            <==> parse_sel_list_spec(toks@, i as int) is Some);
                        if parse_sel_list_spec(toks@, sel_start) is Some {
                            let pr = parse_sel_list_spec(toks@, sel_start)->0;
                            let pr2 = parse_sel_list_spec(toks@, old_i)->0;
                            let pr3 = parse_sel_list_spec(toks@, i as int)->0;
                            assert(pr.0 =~= sels_views(old_sels) + pr2.0);
                            assert(pr2.0 =~= seq![pushed_view] + pr3.0);
                            assert(pr.0 =~= sels_views(sels@) + pr3.0);
                        }
                    }
                }
            }
        }
        Selectors::List(sels)
    } else {
        Selectors::List(Vec::new())
    };
    if i < n && i + 1 == n {
        match &toks[i] {
            Tok::Ident(id) => {
                let target = clone_str(id);
                Some(PartialInput { has_underscore, has_amp, lifetime, selectors, target })
            },
            _ => None,
        }
    } else {
        None
    }
}

/// Whether the borrow expression opens with the `_` marker, which disables
/// usage-tracking warnings for the one call.
pub open spec fn tok_underscore_prefix(toks: Seq<Tok>) -> bool {
    toks.len() > 0 && toks[0] is Underscore
}

/// Where the optional `&` marker stands.
pub open spec fn amp_pos(toks: Seq<Tok>) -> int {
    if tok_underscore_prefix(toks) {
        1
    } else {
        0
    }
}

/// Whether the borrow expression carries the `&` reference marker.
pub open spec fn tok_amp_prefix(toks: Seq<Tok>) -> bool {
    amp_pos(toks) < toks.len() && toks[amp_pos(toks)] is Amp
}

/// Where the optional default lifetime stands.
pub open spec fn life_pos(toks: Seq<Tok>) -> int {
    amp_pos(toks) + if tok_amp_prefix(toks) {
        1int
    } else {
        0int
    }
}

/// The default lifetime the expression carries: the one written after the
/// markers, or `_` when none was written.
pub open spec fn default_lifetime_of(toks: Seq<Tok>) -> Seq<char> {
    if life_pos(toks) < toks.len() && toks[life_pos(toks)] is Life {
        toks[life_pos(toks)]->Life_0@
    } else {
        "_"@
    }
}

/// Where the selector part (the keyword `mut` or an angle-bracketed list)
/// stands, after the markers and the optional default lifetime.
pub open spec fn sel_list_pos(toks: Seq<Tok>) -> int {
    life_pos(toks) + if life_pos(toks) < toks.len() && toks[life_pos(toks)] is Life {
        1int
    } else {
        0int
    }
}

/// Parses and expands a borrow expression in one step, as the `partial`
/// front-end entry point does: the result is the expansion of the parsed
/// input, or nothing when the tokens do not form a borrow expression.
pub fn partial(toks: &Vec<Tok>) -> (r: Option<Expansion>)
    ensures
        toks@.len() == 1 && toks@[0] is Ident ==> r is Some,
        toks@.len() == 3 && toks@[0] is Amp && toks@[1] is KwMut && toks@[2] is Ident ==> r
            is Some,
        r matches Some(e) ==> (toks@.last() matches Tok::Ident(id) && ({
            &&& is_lower_start(id@) ==> (e matches Expansion::ValueForm { target } && target@
                == id@)
            &&& !is_lower_start(id@) ==> !(e is ValueForm)
        })),
        r matches Some(e) ==> (e matches Expansion::MacroCall {
            target,
            track_enabled,
            has_ref_prefix,
            lifetime,
            ..
        } ==> (track_enabled == !tok_underscore_prefix(toks@) && has_ref_prefix
            == tok_amp_prefix(toks@) && lifetime@ == default_lifetime_of(toks@) && (toks@.last()
            matches Tok::Ident(id) && target@ == id@))),
        r matches Some(e) ==> (e matches Expansion::AllFieldsMut { lifetime, target } ==> (
        lifetime@ == default_lifetime_of(toks@) && (toks@.last() matches Tok::Ident(id) && target@
            == id@))),
        r matches Some(e) ==> (e matches Expansion::MacroCall { selectors, .. } ==> ({
            let sp = sel_list_pos(toks@);
            &&& (sp < toks@.len() && toks@[sp] is AngleOpen ==> (parse_sel_list_spec(
                toks@,
                sp + 1,
            ) matches Some(pr) && sels_views(selectors@) =~= pr.0 && pr.1 == toks@.len() - 1))
            &&& (!(sp < toks@.len() && (toks@[sp] is KwMut || toks@[sp] is AngleOpen))
                ==> selectors@.len() == 0)
        })),
{
    match parse_partial_input(toks) {
        Some(p) => {
            let ghost pg = p;
            let e = expand_partial(p);
            proof {
                assert(pg.target@ == toks@.last()->Ident_0@);
                assert(pg.has_underscore == tok_underscore_prefix(toks@));
                assert(pg.has_amp == tok_amp_prefix(toks@));
                assert(lifetime_or(pg.lifetime, "_"@) == default_lifetime_of(toks@));
                let i0: int = if pg.has_underscore {
                    1
                } else {
                    0
                };
                let i1: int = if pg.has_amp {
                    i0 + 1
                } else {
                    i0
                };
                let i2: int = if pg.lifetime is Some {
                    i1 + 1
                } else {
                    i1
                };
                assert(i0 == amp_pos(toks@));
                assert(i1 == life_pos(toks@));
                assert(i2 == sel_list_pos(toks@));
            }
            Some(e)
        },
        None => None,
    }
}

/// Tells an underscore token.
fn tok_is_underscore(t: &Tok) -> (r: bool)
    ensures
        r == (*t is Underscore),
{
    match t {
        Tok::Underscore => true,
        _ => false,
    }
}

/// Tells an ampersand token.
fn tok_is_amp(t: &Tok) -> (r: bool)
    ensures
        r == (*t is Amp),
{
    match t {
        Tok::Amp => true,
        _ => false,
    }
}

/// Tells the keyword `mut`.
fn tok_is_kw_mut(t: &Tok) -> (r: bool)
    ensures
        r == (*t is KwMut),
{
    match t {
        Tok::KwMut => true,
        _ => false,
    }
}

/// Tells an opening angle bracket.
fn tok_is_angle_open(t: &Tok) -> (r: bool)
    ensures
        r == (*t is AngleOpen),
{
    match t {
        Tok::AngleOpen => true,
        _ => false,
    }
}

/// Tells a closing angle bracket.
fn tok_is_angle_close(t: &Tok) -> (r: bool)
    ensures
        r == (*t is AngleClose),
{
    match t {
        Tok::AngleClose => true,
        _ => false,
    }
}

/// Tells a star token.
fn tok_is_star(t: &Tok) -> (r: bool)
    ensures
        r == (*t is Star),
{
    match t {
        Tok::Star => true,
        _ => false,
    }
}

/// Tells a comma token.
fn tok_is_comma(t: &Tok) -> (r: bool)
    ensures
        r == (*t is Comma),
{
    match t {
        Tok::Comma => true,
        _ => false,
    }
}

} // verus!
