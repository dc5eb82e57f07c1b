//! Input contexts and the attributes a client sets on them.
use vstd::prelude::*;
use crate::wire::{attribute_at, read_u32, u16_at, u32_at, Attribute, Endian, Point};

verus! {

pub const IC_INPUTSTYLE: u16 = 0;
pub const IC_CLIENTWIN: u16 = 1;
pub const IC_FOCUSWIN: u16 = 2;
pub const IC_PREEDITATTRS: u16 = 3;
pub const IC_SPOTLOCATION: u16 = 4;
pub const IC_NESTED_SEP: u16 = 30;

/// One text-entry target of a client, with the attributes it has set.
pub struct InputContext<T> {
    pub client_win: u32,
    pub app_win: Option<u32>,
    pub app_focus_win: Option<u32>,
    pub input_method_id: u16,
    pub input_context_id: u16,
    pub input_style: u32,
    pub preedit_spot: Point,
    pub locale: Vec<u8>,
    pub user_data: T,
}

/// The attributes of a context that a client sets: input style, client
/// window, focus window and preedit spot.
pub type IcAttrs = (u32, Option<u32>, Option<u32>, Point);

/// The point that four value bytes hold.
pub open spec fn point_at(v: Seq<u8>, e: Endian) -> Point {
    Point { x: u16_at(v, e) as i16, y: u16_at(v.skip(2), e) as i16 }
}

/// The preedit spot after a nested attribute list `b`: the last well-formed
/// spot location in it, or `spot` where it holds none. The list ends at the
/// first malformed attribute.
pub open spec fn nested_spot(b: Seq<u8>, spot: Point, e: Endian) -> Point
    decreases b.len(),
{
    match attribute_at(b, e) {
        None => spot,
        Some((id, value, size)) => {
            let next = if id == IC_SPOTLOCATION && value.len() >= 4 {
                point_at(value, e)
            } else {
                spot
            };
            if size > 0 {
                nested_spot(b.skip(size as int), next, e)
            } else {
                next
            }
        },
    }
}

/// A window id from an attribute value: present, four bytes, not zero.
pub open spec fn window_of(value: Seq<u8>, e: Endian) -> Option<u32> {
    if value.len() >= 4 && u32_at(value, e) != 0 {
        Some(u32_at(value, e))
    } else {
        None
    }
}

/// The attributes after one attribute is applied. A malformed value for a
/// known id, and an unknown id, leave them as they were.
pub open spec fn apply_attr(s: IcAttrs, id: u16, value: Seq<u8>, e: Endian) -> IcAttrs {
    if id == IC_INPUTSTYLE {
        if value.len() >= 4 {
            (u32_at(value, e), s.1, s.2, s.3)
        } else {
            s
        }
    } else if id == IC_CLIENTWIN {
        match window_of(value, e) {
            Some(w) => (s.0, Some(w), s.2, s.3),
            None => s,
        }
    } else if id == IC_FOCUSWIN {
        match window_of(value, e) {
            Some(w) => (s.0, s.1, Some(w), s.3),
            None => s,
        }
    } else if id == IC_PREEDITATTRS {
        (s.0, s.1, s.2, nested_spot(value, s.3, e))
    } else {
        s
    }
}

/// The attributes after a whole list is applied in order.
pub open spec fn apply_attrs(s: IcAttrs, attrs: Seq<Attribute>, e: Endian) -> IcAttrs
    decreases attrs.len(),
{
    if attrs.len() == 0 {
        s
    } else {
        let prev = apply_attrs(s, attrs.drop_last(), e);
        apply_attr(prev, attrs.last().id, attrs.last().value@, e)
    }
}

impl<T> InputContext<T> {
    /// The attributes a client sets.
    pub open spec fn attrs(&self) -> IcAttrs {
        (self.input_style, self.app_win, self.app_focus_win, self.preedit_spot)
    }

    /// A context with no style, no windows and its preedit spot at the origin.
    pub fn new(
        client_win: u32,
        input_method_id: u16,
        input_context_id: u16,
        locale: Vec<u8>,
        user_data: T,
    ) -> (r: Self)
        ensures
            r.client_win == client_win,
            r.input_method_id == input_method_id,
            r.input_context_id == input_context_id,
            r.locale == locale,
            r.user_data == user_data,
            r.attrs() == (0u32, None::<u32>, None::<u32>, Point { x: 0, y: 0 }),
    {
        InputContext {
            client_win,
            app_win: None,
            app_focus_win: None,
            input_method_id,
            input_context_id,
            input_style: 0,
            preedit_spot: Point { x: 0, y: 0 },
            locale,
            user_data,
        }
    }

    pub fn client_win(&self) -> (r: u32)
        ensures
            r == self.client_win,
    {
        self.client_win
    }

    pub fn app_win(&self) -> (r: Option<u32>)
        ensures
            r == self.app_win,
    {
        self.app_win
    }

    pub fn app_focus_win(&self) -> (r: Option<u32>)
        ensures
            r == self.app_focus_win,
    {
        self.app_focus_win
    }

    pub fn preedit_spot(&self) -> (r: Point)
        ensures
            r == self.preedit_spot,
    {
        self.preedit_spot
    }

    pub fn input_method_id(&self) -> (r: u16)
        ensures
            r == self.input_method_id,
    {
        self.input_method_id
    }

    pub fn input_context_id(&self) -> (r: u16)
        ensures
            r == self.input_context_id,
    {
        self.input_context_id
    }

    pub fn input_style(&self) -> (r: u32)
        ensures
            r == self.input_style,
    {
        self.input_style
    }

    pub fn locale(&self) -> (r: &[u8])
        ensures
            r@ == self.locale@,
    {
        self.locale.as_slice()
    }
}

/// The preedit spot after the nested list `b`, starting from `spot`.
fn read_nested_spot(b: &[u8], spot: Point, e: Endian) -> (r: Point)
    ensures
        r == nested_spot(b@, spot, e),
{
    let mut pos: usize = 0;
    let mut cur = spot;
    assert(b@.skip(0) =~= b@);
    while pos < b.len()
        invariant
            pos <= b@.len(),
            nested_spot(b@.skip(pos as int), cur, e) == nested_spot(b@, spot, e),
        decreases b@.len() - pos,
    {
        match Attribute::read(b, pos, e) {
            None => {
                return cur;
            },
            Some((a, size)) => {
                let ghost s = b@.skip(pos as int);
                if a.id == IC_SPOTLOCATION && a.value.len() >= 4 {
                    let x = crate::wire::read_u16(a.value.as_slice(), 0, e).unwrap();
                    let y = crate::wire::read_u16(a.value.as_slice(), 2, e).unwrap();
                    assert(a.value@.skip(0) =~= a.value@);
                    cur = Point { x: #[verifier::truncate] (x as i16), y: #[verifier::truncate] (y as i16) };
                }
                assert(s.skip(size as int) =~= b@.skip(pos + size));
                pos = pos + size;
            },
        }
    }
    assert(b@.skip(pos as int).len() == 0);
    cur
}

/// Applies `attributes` in order to `ic`: see `apply_attrs`.
pub fn set_ic_attrs<T>(ic: &mut InputContext<T>, attributes: &Vec<Attribute>, e: Endian)
    ensures
        final(ic).attrs() == apply_attrs(old(ic).attrs(), attributes@, e),
        final(ic).client_win == old(ic).client_win,
        final(ic).input_method_id == old(ic).input_method_id,
        final(ic).input_context_id == old(ic).input_context_id,
        final(ic).locale == old(ic).locale,
        final(ic).user_data == old(ic).user_data,
{
    let mut i: usize = 0;
    while i < attributes.len()
        invariant
            i <= attributes@.len(),
            ic.attrs() == apply_attrs(old(ic).attrs(), attributes@.subrange(0, i as int), e),
            ic.client_win == old(ic).client_win,
            ic.input_method_id == old(ic).input_method_id,
            ic.input_context_id == old(ic).input_context_id,
            ic.locale == old(ic).locale,
            ic.user_data == old(ic).user_data,
        decreases attributes@.len() - i,
    {
        let attr = &attributes[i];
        let v = attr.value.as_slice();
        if attr.id == IC_INPUTSTYLE {
            if let Some(style) = read_u32(v, 0, e) {
                ic.input_style = style;
            }
        } else if attr.id == IC_CLIENTWIN {
            if let Some(w) = read_u32(v, 0, e) {
                if w != 0 {
                    ic.app_win = Some(w);
                }
            }
        } else if attr.id == IC_FOCUSWIN {
            if let Some(w) = read_u32(v, 0, e) {
                if w != 0 {
                    ic.app_focus_win = Some(w);
                }
            }
        } else if attr.id == IC_PREEDITATTRS {
            ic.preedit_spot = read_nested_spot(v, ic.preedit_spot, e);
        }
        proof {
            assert(v@.skip(0) =~= v@);
            assert(attributes@.subrange(0, i + 1).drop_last() =~= attributes@.subrange(0, i as int));
        }
        i = i + 1;
    }
    assert(attributes@.subrange(0, attributes@.len() as int) =~= attributes@);
}

} // verus!
