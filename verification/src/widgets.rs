//! Where the chat view draws each message: bubbles stacked from the bottom
//! of the area upwards, the newest lowest, the user's own messages on the
//! right and the others' on the left.

use vstd::prelude::*;
use vstd::utf8::encode_utf8;
use crate::message::{ClientMessage, MessageView};

verus! {

/// A rectangle of the terminal, in cells.
pub struct Area {
    pub x: u16,
    pub y: u16,
    pub width: u16,
    pub height: u16,
}

/// Where one message is drawn, and whether it is the user's own.
pub struct Bubble {
    pub x: u16,
    pub y: u16,
    pub width: u16,
    pub height: u16,
    pub outgoing: bool,
    /// The position of the message in the list.
    pub index: usize,
}

/// The length of a message's content in bytes, cut to 16 bits as the
/// layout takes it.
pub open spec fn text_len(content: Seq<char>) -> int {
    ((encode_utf8(content).len() as usize) as u16) as int
}

/// The widest text a bubble in an area `area_width` wide may have.
pub open spec fn max_text_width(area_width: int) -> int {
    (if area_width / 2 + 10 > 15 { area_width / 2 + 10 } else { 15 }) - 2
}

/// The width of the bubble of a text `len` bytes long: the text and two
/// cells of padding, at most the widest text, at least ten, plus the border.
pub open spec fn bubble_width(area_width: int, len: int) -> int {
    let w = if len + 2 < max_text_width(area_width) { len + 2 } else { max_text_width(area_width) };
    (if w > 10 { w } else { 10 }) + 2
}

/// The height of a bubble `width` wide for a text `len` bytes long: the
/// lines the text wraps to, plus the border.
pub open spec fn bubble_height(len: int, width: int) -> int {
    (len + (width - 3)) / (width - 2) + 2
}

/// The bubbles of `msgs[0..i]`, newest first, placed upwards from `bottom`,
/// until one no longer fits above the top of the area; `None` where a step
/// of the layout leaves the range of 16-bit cells.
pub open spec fn plan(area: Area, msgs: Seq<MessageView>, from_id: u64, i: int, bottom: int) -> Option<Seq<Bubble>>
    decreases i,
{
    if i <= 0 {
        Some(Seq::empty())
    } else {
        let m = msgs[i - 1];
        let len = text_len(m.content);
        if len + 2 > u16::MAX {
            None
        } else {
            let w = bubble_width(area.width as int, len);
            if len + (w - 3) > u16::MAX {
                None
            } else {
                let h = bubble_height(len, w);
                if area.y + h > u16::MAX {
                    None
                } else if bottom < area.y + h {
                    Some(Seq::empty())
                } else {
                    let y = bottom - h;
                    let outgoing = m.sender_id == from_id;
                    if outgoing && (area.x + area.width > u16::MAX || w > area.x + area.width) {
                        None
                    } else if area.y + 1 > u16::MAX {
                        None
                    } else {
                        let x = if outgoing { area.x + area.width - w } else { area.x as int };
                        let next = if y > area.y + 1 { y - 1 } else { y };
                        match plan(area, msgs, from_id, i - 1, next) {
                            Some(rest) => Some(seq![Bubble {
                                x: x as u16,
                                y: y as u16,
                                width: w as u16,
                                height: h as u16,
                                outgoing,
                                index: (i - 1) as usize,
                            }] + rest),
                            None => None,
                        }
                    }
                }
            }
        }
    }
}

/// The bubbles of all of `msgs` in `area` for the user `from_id`, newest
/// first; `None` where the layout leaves the range of 16-bit cells.
pub open spec fn layout_plan(area: Area, msgs: Seq<MessageView>, from_id: u64) -> Option<Seq<Bubble>> {
    if msgs.len() == 0 {
        Some(Seq::empty())
    } else if area.y + area.height > u16::MAX {
        None
    } else {
        plan(area, msgs, from_id, msgs.len() as int, area.y + area.height)
    }
}

/// Every bubble of the plan lies between the top of the area and `bottom`,
/// each above the one before it; the user's own bubbles touch the right edge
/// of the area and the others the left edge.
pub proof fn lemma_plan_within(area: Area, msgs: Seq<MessageView>, from_id: u64, i: int, bottom: int)
    requires
        area.y <= bottom <= u16::MAX,
    ensures
        plan(area, msgs, from_id, i, bottom) matches Some(bs) ==> forall|k: int|
            #![trigger bs[k]]
            0 <= k < bs.len() ==> {
                &&& area.y <= bs[k].y
                &&& bs[k].y + bs[k].height <= bottom
                &&& (k + 1 < bs.len() ==> bs[k + 1].y + bs[k + 1].height <= bs[k].y)
                &&& bs[k].outgoing ==> bs[k].x + bs[k].width == area.x + area.width
                &&& !bs[k].outgoing ==> bs[k].x == area.x
            },
    decreases i,
{
    if i > 0 {
        let m = msgs[i - 1];
        let len = text_len(m.content);
        let w = bubble_width(area.width as int, len);
        let h = bubble_height(len, w);
        if len + 2 <= u16::MAX && len + (w - 3) <= u16::MAX && area.y + h <= u16::MAX && bottom
            >= area.y + h && area.y + 1 <= u16::MAX {
            let y = bottom - h;
            let next = if y > area.y + 1 { y - 1 } else { y };
            lemma_plan_within(area, msgs, from_id, i - 1, next);
            assert(w >= 12);
            assert(h >= 2);
        }
    }
}

/// No bubble of the layout leaves the area from above or below, and each
/// stands above the newer one; the user's own messages are drawn against the
/// right edge, the others' against the left edge.
pub proof fn lemma_layout_within_area(area: Area, msgs: Seq<MessageView>, from_id: u64)
    ensures
        layout_plan(area, msgs, from_id) matches Some(bs) ==> forall|k: int|
            #![trigger bs[k]]
            0 <= k < bs.len() ==> {
                &&& area.y <= bs[k].y
                &&& bs[k].y + bs[k].height <= area.y + area.height
                &&& (k + 1 < bs.len() ==> bs[k + 1].y + bs[k + 1].height <= bs[k].y)
                &&& bs[k].outgoing ==> bs[k].x + bs[k].width == area.x + area.width
                &&& !bs[k].outgoing ==> bs[k].x == area.x
            },
{
    if msgs.len() > 0 && area.y + area.height <= u16::MAX {
        lemma_plan_within(area, msgs, from_id, msgs.len() as int, area.y + area.height);
    }
}

/// The shape of each bubble of the plan: the k-th drawn is message
/// `i - 1 - k` (so the drawn messages are the newest ones), its width and
/// height follow the formulas of the layout from its text's length, it is
/// the user's own exactly when the user sent it, the newest sits on
/// `bottom`, and each older one ends one row above the newer one, or right
/// on it where that one reaches the top row but one.
pub proof fn lemma_plan_shape(area: Area, msgs: Seq<MessageView>, from_id: u64, i: int, bottom: int)
    requires
        0 <= i <= msgs.len(),
        msgs.len() <= usize::MAX,
        0 <= bottom <= u16::MAX,
    ensures
        plan(area, msgs, from_id, i, bottom) matches Some(bs) ==> {
            &&& bs.len() <= i
            &&& bs.len() > 0 ==> bs[0].y + bs[0].height == bottom
            &&& forall|k: int|
                #![trigger bs[k]]
                0 <= k < bs.len() ==> {
                    let m = msgs[i - 1 - k];
                    &&& bs[k].index == i - 1 - k
                    &&& bs[k].width == bubble_width(area.width as int, text_len(m.content))
                    &&& bs[k].height == bubble_height(text_len(m.content), bs[k].width as int)
                    &&& bs[k].outgoing == (m.sender_id == from_id)
                    &&& (k + 1 < bs.len() ==> bs[k + 1].y + bs[k + 1].height == (if bs[k].y > area.y + 1 {
                        bs[k].y - 1
                    } else {
                        bs[k].y as int
                    }))
                }
        },
    decreases i,
{
    if i > 0 {
        let m = msgs[i - 1];
        let len = text_len(m.content);
        let w = bubble_width(area.width as int, len);
        let h = bubble_height(len, w);
        if len + 2 <= u16::MAX && len + (w - 3) <= u16::MAX && area.y + h <= u16::MAX && bottom
            >= area.y + h && area.y + 1 <= u16::MAX {
            let y = bottom - h;
            let next = if y > area.y + 1 { y - 1 } else { y };
            lemma_plan_shape(area, msgs, from_id, i - 1, next);
            assert(w >= 12);
            assert(h >= 2);
            if let Some(bs) = plan(area, msgs, from_id, i, bottom) {
                let rest = plan(area, msgs, from_id, i - 1, next).unwrap();
                assert(0 <= y <= u16::MAX);
                assert(bs[0].y == y);
                assert(bs[0].height == h);
                assert(bs[0].width == w);
                assert(bs[0].index == i - 1);
                assert forall|k: int| 0 <= k < bs.len() implies {
                    let mk = msgs[i - 1 - k];
                    &&& #[trigger] bs[k].index == i - 1 - k
                    &&& bs[k].width == bubble_width(area.width as int, text_len(mk.content))
                    &&& bs[k].height == bubble_height(text_len(mk.content), bs[k].width as int)
                    &&& bs[k].outgoing == (mk.sender_id == from_id)
                    &&& (k + 1 < bs.len() ==> bs[k + 1].y + bs[k + 1].height == (if bs[k].y > area.y + 1 {
                        bs[k].y - 1
                    } else {
                        bs[k].y as int
                    }))
                } by {
                    if k > 0 {
                        assert(bs[k] == rest[k - 1]);
                        assert(i - 1 - k == (i - 1) - 1 - (k - 1));
                    }
                    if k + 1 < bs.len() {
                        assert(bs[k + 1] == rest[k]);
                    }
                }
            }
        }
    }
}

/// The shape of each bubble of the layout, as [`lemma_plan_shape`] gives it
/// for all messages placed upwards from the bottom of the area.
pub proof fn lemma_layout_shape(area: Area, msgs: Seq<MessageView>, from_id: u64)
    requires
        msgs.len() <= usize::MAX,
    ensures
        layout_plan(area, msgs, from_id) matches Some(bs) ==> {
            &&& bs.len() <= msgs.len()
            &&& bs.len() > 0 ==> bs[0].y + bs[0].height == area.y + area.height
            &&& forall|k: int|
                #![trigger bs[k]]
                0 <= k < bs.len() ==> {
                    let m = msgs[msgs.len() - 1 - k];
                    &&& bs[k].index == msgs.len() - 1 - k
                    &&& bs[k].width == bubble_width(area.width as int, text_len(m.content))
                    &&& bs[k].height == bubble_height(text_len(m.content), bs[k].width as int)
                    &&& bs[k].outgoing == (m.sender_id == from_id)
                }
        },
{
    if msgs.len() > 0 && area.y + area.height <= u16::MAX {
        lemma_plan_shape(area, msgs, from_id, msgs.len() as int, area.y + area.height);
    }
}

proof fn lemma_plan_exists(area: Area, msgs: Seq<MessageView>, from_id: u64, i: int, bottom: int)
    requires
        area.width >= 20,
        area.x + area.width <= 1000,
        area.y <= bottom <= 1000,
        0 <= i <= msgs.len(),
        forall|j: int| 0 <= j < msgs.len() ==> #[trigger] encode_utf8(msgs[j].content).len() < 30000,
    ensures
        plan(area, msgs, from_id, i, bottom) is Some,
    decreases i,
{
    if i > 0 {
        let m = msgs[i - 1];
        assert(encode_utf8(msgs[i - 1].content).len() < 30000);
        let len = text_len(m.content);
        assert(len == encode_utf8(m.content).len());
        let mtw = max_text_width(area.width as int);
        assert(mtw == area.width / 2 + 8);
        let w = bubble_width(area.width as int, len);
        assert(12 <= w <= area.width / 2 + 10);
        let h = bubble_height(len, w);
        assert((len + (w - 3)) / (w - 2) <= len + (w - 3)) by (nonlinear_arith)
            requires
                len + (w - 3) >= 0,
                w - 2 >= 1,
        ;
        if bottom >= area.y + h {
            let y = bottom - h;
            let next = if y > area.y + 1 { y - 1 } else { y };
            lemma_plan_exists(area, msgs, from_id, i - 1, next);
        }
    }
}

/// On an area at least 20 cells wide that ends within the first 1000 rows
/// and columns, messages of fewer than 30000 bytes each can always be laid
/// out: no step of the layout leaves the range of 16-bit cells.
pub proof fn lemma_layout_exists(area: Area, msgs: Seq<MessageView>, from_id: u64)
    requires
        area.width >= 20,
        area.x + area.width <= 1000,
        area.y + area.height <= 1000,
        forall|j: int| 0 <= j < msgs.len() ==> #[trigger] encode_utf8(msgs[j].content).len() < 30000,
    ensures
        layout_plan(area, msgs, from_id) is Some,
{
    if msgs.len() > 0 {
        lemma_plan_exists(area, msgs, from_id, msgs.len() as int, area.y + area.height);
    }
}

/// The lowest row the bubble above `b` may end on: one row above it, or on
/// it where it reaches the top row but one.
pub open spec fn bottom_above(area: Area, b: Bubble) -> int {
    if b.y > area.y + 1 { b.y - 1 } else { b.y as int }
}

/// The height of the bubble of `m` in an area `area_width` wide.
pub open spec fn message_height(area_width: int, m: MessageView) -> int {
    bubble_height(text_len(m.content), bubble_width(area_width, text_len(m.content)))
}

/// The plan stops only at a message that does not fit: where it places
/// fewer bubbles than messages, the bubble of the next older message is
/// taller than the room left between the top of the area and the last
/// bubble placed (or `bottom`, where none was placed).
pub proof fn lemma_plan_stops_only_when_full(area: Area, msgs: Seq<MessageView>, from_id: u64, i: int, bottom: int)
    requires
        0 <= i <= msgs.len(),
        area.y <= bottom <= u16::MAX,
    ensures
        plan(area, msgs, from_id, i, bottom) matches Some(bs) ==> (bs.len() < i ==> {
            let room = if bs.len() == 0 { bottom } else { bottom_above(area, bs.last()) };
            room < area.y + message_height(area.width as int, msgs[i - 1 - bs.len()])
        }),
    decreases i,
{
    if i > 0 {
        let m = msgs[i - 1];
        let len = text_len(m.content);
        let w = bubble_width(area.width as int, len);
        let h = bubble_height(len, w);
        if len + 2 <= u16::MAX && len + (w - 3) <= u16::MAX && area.y + h <= u16::MAX && bottom
            >= area.y + h && area.y + 1 <= u16::MAX {
            let y = bottom - h;
            let next = if y > area.y + 1 { y - 1 } else { y };
            assert(w >= 12);
            assert(h >= 2);
            lemma_plan_stops_only_when_full(area, msgs, from_id, i - 1, next);
            if let Some(bs) = plan(area, msgs, from_id, i, bottom) {
                let rest = plan(area, msgs, from_id, i - 1, next).unwrap();
                assert(bs.len() == rest.len() + 1);
                assert(bs[0].y == y);
                if rest.len() > 0 {
                    assert(bs.last() == rest.last());
                }
                assert(i - 1 - bs.len() == (i - 1) - 1 - rest.len());
            }
        }
    }
}

/// Every message whose bubble still fits is drawn: where the layout draws
/// fewer bubbles than there are messages, the next older message's bubble
/// would reach above the top of the area; so when every bubble fits, all
/// messages are drawn.
pub proof fn lemma_layout_draws_all_that_fit(area: Area, msgs: Seq<MessageView>, from_id: u64)
    ensures
        layout_plan(area, msgs, from_id) matches Some(bs) ==> (bs.len() < msgs.len() ==> {
            let room = if bs.len() == 0 { area.y + area.height } else { bottom_above(area, bs.last()) };
            room < area.y + message_height(area.width as int, msgs[msgs.len() - 1 - bs.len()])
        }),
{
    if msgs.len() > 0 && area.y + area.height <= u16::MAX {
        lemma_plan_stops_only_when_full(area, msgs, from_id, msgs.len() as int, area.y + area.height);
    }
}

/// The size of a bubble for a text `len` bytes long in an area
/// `area_width` wide: two cells of padding around the text and a border,
/// between 12 cells and the widest a bubble may be; its text rows are
/// exactly as many as the text needs, wrapped at the width inside the
/// border.
pub proof fn lemma_bubble_size(area_width: int, len: int)
    requires
        0 <= area_width,
        0 <= len,
    ensures
        ({
            let widest = (if area_width / 2 + 10 > 15 { area_width / 2 + 10 } else { 15 });
            let w = bubble_width(area_width, len);
            let h = bubble_height(len, w);
            &&& 12 <= w <= widest
            &&& 10 <= len + 2 <= widest - 2 ==> w == len + 4
            &&& len + 2 >= widest - 2 ==> w == widest
            &&& len + 2 <= 10 ==> w == 12
            &&& (h - 2) * (w - 2) >= len
            &&& len > 0 ==> (h - 3) * (w - 2) < len
            &&& len == 0 ==> h == 2
        }),
{
    let w = bubble_width(area_width, len);
    let d = w - 2;
    let q = (len + (d - 1)) / d;
    assert(d >= 10);
    assert(q * d <= len + d - 1 < q * d + d) by (nonlinear_arith)
        requires
            d >= 1,
            q == (len + (d - 1)) / d,
            len + d - 1 >= 0,
    ;
    assert(q * d >= len) by (nonlinear_arith)
        requires
            q * d + d > len + d - 1,
    ;
    if len > 0 {
        assert((q - 1) * d < len) by (nonlinear_arith)
            requires
                q * d <= len + d - 1,
        ;
    } else {
        assert(q == 0) by (nonlinear_arith)
            requires
                d >= 10,
                q == (len + (d - 1)) / d,
                len == 0,
        ;
    }
}

/// The views of a list of messages.
pub open spec fn message_views(messages: Seq<ClientMessage>) -> Seq<MessageView> {
    messages.map_values(|m: ClientMessage| m@)
}

/// Lays out the chat messages.
pub struct MessageRenderer;

impl MessageRenderer {
    /// Whether the layout of `messages` in `area` stays within the range of
    /// 16-bit cells at every step, so that [`MessageRenderer::layout`] can
    /// place them.
    pub fn fits(area: &Area, messages: &Vec<ClientMessage>, from_id: u64) -> (r: bool)
        ensures
            r == layout_plan(*area, message_views(messages@), from_id) is Some,
    {
        if messages.len() == 0 {
            return true;
        }
        let ghost msgs = message_views(messages@);
        let (ax, ay, aw, ah) = (area.x as u32, area.y as u32, area.width as u32, area.height as u32);
        if ay + ah > 65535 {
            return false;
        }
        let mut current_y: u32 = ay + ah;
        let mut i: usize = messages.len();
        while i > 0
            invariant
                msgs == message_views(messages@),
                msgs.len() == messages@.len(),
                i <= messages@.len(),
                current_y <= 65535,
                ax == area.x && ay == area.y && aw == area.width && ah == area.height,
                (layout_plan(*area, msgs, from_id) is Some) == (plan(*area, msgs, from_id, i as int, current_y as int) is Some),
            decreases i,
        {
            let msg = &messages[i - 1];
            assert(msgs[i - 1] == msg@);
            let len = (msg.get_content().len() as u16) as u32;
            let half = aw / 2 + 10;
            let max_text_width = (if half > 15 { half } else { 15 }) - 2;
            if len + 2 > 65535 {
                return false;
            }
            let padded = len + 2;
            let narrow = if padded < max_text_width { padded } else { max_text_width };
            let width = (if narrow > 10 { narrow } else { 10 }) + 2;
            if len + (width - 3) > 65535 {
                return false;
            }
            let height = (len + (width - 3)) / (width - 2) + 2;
            if ay + height > 65535 {
                return false;
            }
            if current_y < ay + height {
                return true;
            }
            let y = current_y - height;
            let outgoing = msg.get_sender_id() == from_id;
            if outgoing && (ax + aw > 65535 || width > ax + aw) {
                return false;
            }
            if ay + 1 > 65535 {
                return false;
            }
            current_y = if y > ay + 1 { y - 1 } else { y };
            i = i - 1;
        }
        true
    }

    /// Where each message is drawn in `area`, newest first, for the user
    /// `from_id`; messages older than the first that does not fit are not
    /// drawn.
    pub fn layout(area: &Area, messages: &Vec<ClientMessage>, from_id: u64) -> (r: Vec<Bubble>)
        requires
            layout_plan(*area, message_views(messages@), from_id) is Some,
        ensures
            layout_plan(*area, message_views(messages@), from_id) == Some(r@),
    {
        let mut out: Vec<Bubble> = Vec::new();
        if messages.len() == 0 {
            return out;
        }
        let ghost msgs = message_views(messages@);
        let mut current_y: u16 = area.y + area.height;
        let mut i: usize = messages.len();
        while i > 0
            invariant
                msgs == message_views(messages@),
                msgs.len() == messages@.len(),
                i <= messages@.len(),
                plan(*area, msgs, from_id, i as int, current_y as int) is Some,
                layout_plan(*area, msgs, from_id) == Some(
                    out@ + plan(*area, msgs, from_id, i as int, current_y as int).unwrap(),
                ),
            ensures
                layout_plan(*area, msgs, from_id) == Some(out@),
            decreases i,
        {
            let msg = &messages[i - 1];
            assert(msgs[i - 1] == msg@);
            let is_outgoing = msg.get_sender_id() == from_id;
            let content = msg.get_content();
            let len = content.len() as u16;
            let half = area.width / 2 + 10;
            let max_text_width = (if half > 15 { half } else { 15 }) - 2;
            let padded = len + 2;
            let narrow = if padded < max_text_width { padded } else { max_text_width };
            let width = (if narrow > 10 { narrow } else { 10 }) + 2;
            let wrapped_lines = (len + (width - 3)) / (width - 2);
            let height = wrapped_lines + 2;
            if current_y < area.y + height {
                assert(plan(*area, msgs, from_id, i as int, current_y as int).unwrap() =~= Seq::<Bubble>::empty());
                assert(out@ + Seq::<Bubble>::empty() =~= out@);
                break;
            }
            current_y = current_y - height;
            let x = if is_outgoing { area.x + area.width - width } else { area.x };
            let ghost placed = Bubble { x, y: current_y, width, height, outgoing: is_outgoing, index: (i - 1) as usize };
            out.push(Bubble { x, y: current_y, width, height, outgoing: is_outgoing, index: i - 1 });
            if current_y > area.y + 1 {
                current_y = current_y - 1;
            }
            i = i - 1;
            proof {
                let rest = plan(*area, msgs, from_id, i as int, current_y as int).unwrap();
                assert(out@ + rest =~= out@.drop_last() + (seq![placed] + rest));
            }
        }
        proof {
            assert(out@ + Seq::<Bubble>::empty() =~= out@);
        }
        out
    }
}

} // verus!
