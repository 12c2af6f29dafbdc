//! The widget protocol: the closed set of tree nodes, the context passed
//! down the tree, and the mathematical model every node's `measure`,
//! `draw` and `handle_event` are specified against.

use vstd::prelude::*;

use crate::button::Button;
use crate::button::button_size_spec;
use crate::button::wf_button;
use crate::geometry::BBox;
use crate::geometry::Vector2;
use crate::geometry::scale_len_spec;
use crate::host::ButtonClickEvent;
use crate::host::CursorIcon;
use crate::host::GUIEvent;
use crate::host::Host;
use crate::label::Label;
use crate::label::label_size_spec;
use crate::label::wf_label;
use crate::stacks::HorizontalStack;
use crate::stacks::VerticalStack;
use crate::stacks::stack_size_spec;
use crate::stacks::wf_stack_options;
use crate::surface::Primitive;
use crate::surface::UniversalBrush;

verus! {

/// Weights a font family may offer.
#[derive(Debug, Clone, Copy, PartialEq, Eq, Structural)]
pub enum FontWeight {
    Thin,
    ExtraLight,
    Light,
    Normal,
    Medium,
    SemiBold,
    Bold,
    ExtraBold,
    Black,
}

/// The fonts shipped with the toolkit.
#[derive(Debug, Clone, Copy, PartialEq, Eq, Structural)]
pub enum Font {
    LeagueSpartan,
}

impl Default for Font {
    fn default() -> (f: Self)
        ensures
            f == Font::LeagueSpartan,
    {
        Font::LeagueSpartan
    }
}

/// Read-only context passed by value down the tree each pass: the current
/// screen size in physical pixels, which bounds text wrapping.
#[derive(Debug, Clone, Copy, PartialEq, Eq)]
pub struct Globals {
    pub screen_size: (u32, u32),
}

/// One node of the widget tree. The set of widgets is closed, so dynamic
/// dispatch is a `match` over this enum.
pub enum Widget {
    Label(Label),
    Button(Button),
    HorizontalStack(HorizontalStack),
    VerticalStack(VerticalStack),
}

/// Bound on layout arithmetic: the measured size of any well-formed
/// widget stays within `nodes * SIZE_UNIT` pixels of zero.
pub const SIZE_UNIT: i64 = 0x1000_0000_0000;

/// Offsets handed to the tree must leave `nodes * SIZE_UNIT` of headroom
/// below this magnitude, so every running offset fits in an `i64`.
pub const OFFSET_LIMIT: i64 = 0x1000_0000_0000_0000;

/// The most children one stack may hold.
pub const CHILD_LIMIT: usize = 8192;

/// The most nodes one tree walk accepts.
pub const NODE_LIMIT: usize = 32768;

/// A scale factor is nonnegative and at most a thousandfold zoom per
/// axis.
pub open spec fn scale_ok(s: Vector2) -> bool {
    0 <= s.x <= crate::geometry::SCALE_LIMIT && 0 <= s.y <= crate::geometry::SCALE_LIMIT
}

/// One offset coordinate with headroom for a subtree of `n` nodes.
pub open spec fn off_ok_axis(c: int, n: nat) -> bool {
    -(OFFSET_LIMIT as int) + n * (SIZE_UNIT as int) <= c && c + n * (SIZE_UNIT as int)
        <= OFFSET_LIMIT as int
}

/// An offset a subtree of `n` nodes may be laid out at without the
/// running offsets leaving the machine range.
pub open spec fn off_ok(o: Vector2, n: nat) -> bool {
    off_ok_axis(o.x as int, n) && off_ok_axis(o.y as int, n)
}

/// A position within the overall offset range, with no further headroom.
pub open spec fn pos_ok(o: Vector2) -> bool {
    -OFFSET_LIMIT <= o.x <= OFFSET_LIMIT && -OFFSET_LIMIT <= o.y <= OFFSET_LIMIT
}

/// The number of nodes in a widget tree.
pub open spec fn nodes_spec(w: Widget) -> nat
    decreases w,
{
    match w {
        Widget::Label(_) => 1,
        Widget::Button(_) => 1,
        Widget::HorizontalStack(st) => 1 + nodes_seq(st.children@),
        Widget::VerticalStack(st) => 1 + nodes_seq(st.children@),
    }
}

/// The number of nodes in a forest of widgets.
pub open spec fn nodes_seq(cs: Seq<Widget>) -> nat
    decreases cs,
{
    if cs.len() == 0 {
        0
    } else {
        nodes_seq(cs.drop_last()) + nodes_spec(cs.last())
    }
}

/// Structural well-formedness of a widget tree: option lengths are sane
/// and no stack exceeds the child limit.
pub open spec fn wf_widget(w: Widget) -> bool
    decreases w,
{
    match w {
        Widget::Label(l) => wf_label(l),
        Widget::Button(b) => wf_button(b),
        Widget::HorizontalStack(st) => wf_stack_options(st.options) && wf_children(st.children@),
        Widget::VerticalStack(st) => wf_stack_options(st.options) && wf_children(st.children@),
    }
}

/// Well-formedness of a stack's children.
pub open spec fn wf_children(cs: Seq<Widget>) -> bool
    decreases cs,
{
    cs.len() <= CHILD_LIMIT && (cs.len() == 0 || (wf_children(cs.drop_last()) && wf_widget(
        cs.last(),
    )))
}

/// The size a widget measures to, independent of the offset it is laid
/// out at.
pub open spec fn widget_size(w: Widget, scale: Vector2, font: Seq<u8>, g: Globals) -> (int, int)
    decreases w, 0int,
{
    match w {
        Widget::Label(l) => label_size_spec(l, scale, font, g),
        Widget::Button(b) => button_size_spec(b, scale, font, g),
        Widget::HorizontalStack(st) => stack_size_spec(
            st.children@,
            st.options,
            true,
            scale,
            font,
            g,
        ),
        Widget::VerticalStack(st) => stack_size_spec(st.children@, st.options, false, scale, font, g),
    }
}

/// The running layout of a forest along one axis: the sum of primary-axis
/// extents with one spacing term after each child, and the maximum
/// cross-axis extent. `horizontal` picks the primary axis; `sp` is the
/// already-scaled spacing along it.
pub open spec fn stack_run(
    cs: Seq<Widget>,
    horizontal: bool,
    sp: int,
    scale: Vector2,
    font: Seq<u8>,
    g: Globals,
) -> (int, int)
    decreases cs, 0int,
{
    if cs.len() == 0 {
        (0, 0)
    } else {
        let prev = stack_run(cs.drop_last(), horizontal, sp, scale, font, g);
        let s = widget_size(cs.last(), scale, font, g);
        let p = if horizontal {
            s.0
        } else {
            s.1
        };
        let c = if horizontal {
            s.1
        } else {
            s.0
        };
        (prev.0 + p + sp, if prev.1 >= c {
            prev.1
        } else {
            c
        })
    }
}

/// The position an event carries.
pub open spec fn ev_pos(ev: GUIEvent) -> Vector2 {
    match ev {
        GUIEvent::MousePressed(p) => p,
        GUIEvent::MouseReleased(p) => p,
        GUIEvent::CursorMoved(p) => p,
    }
}

/// An event position within the overall offset range, so positions
/// relative to any accepted offset stay in the machine range.
pub open spec fn ev_ok(ev: GUIEvent) -> bool {
    -OFFSET_LIMIT <= ev_pos(ev).x <= OFFSET_LIMIT && -OFFSET_LIMIT <= ev_pos(ev).y <= OFFSET_LIMIT
}

/// How one event transforms the widget tree laid out at the given
/// offset: hover flags flip where the pointer enters or leaves a button's
/// hit box, and nothing else changes.
pub open spec fn event_widget_rel(
    w: Widget,
    w2: Widget,
    ox: int,
    oy: int,
    scale: Vector2,
    ev: GUIEvent,
    font: Seq<u8>,
    g: Globals,
) -> bool
    decreases w, 1int,
{
    match w {
        Widget::Label(_) => w2 == w,
        Widget::Button(b) => w2 == Widget::Button(
            crate::button::button_after_event(b, ox, oy, scale, ev, font, g),
        ),
        Widget::HorizontalStack(st) => w2 matches Widget::HorizontalStack(st2) && st2.options
            == st.options && children_event_rel(
            st.children@,
            st2.children@,
            ox + scale_len_spec(st.options.margin.x as int, scale.x as int) + scale_len_spec(
                st.options.padding.x as int,
                scale.x as int,
            ),
            oy + scale_len_spec(st.options.margin.y as int, scale.y as int) + scale_len_spec(
                st.options.padding.y as int,
                scale.y as int,
            ),
            true,
            scale_len_spec(st.options.spacing.x as int, scale.x as int),
            scale,
            ev,
            font,
            g,
        ),
        Widget::VerticalStack(st) => w2 matches Widget::VerticalStack(st2) && st2.options
            == st.options && children_event_rel(
            st.children@,
            st2.children@,
            ox + scale_len_spec(st.options.margin.x as int, scale.x as int) + scale_len_spec(
                st.options.padding.x as int,
                scale.x as int,
            ),
            oy + scale_len_spec(st.options.margin.y as int, scale.y as int) + scale_len_spec(
                st.options.padding.y as int,
                scale.y as int,
            ),
            false,
            scale_len_spec(st.options.spacing.y as int, scale.y as int),
            scale,
            ev,
            font,
            g,
        ),
    }
}

/// How one event transforms a stack's children: each child, in order,
/// handles the event at the running offset the layout assigns it.
pub open spec fn children_event_rel(
    cs: Seq<Widget>,
    cs2: Seq<Widget>,
    bx: int,
    by: int,
    horizontal: bool,
    sp: int,
    scale: Vector2,
    ev: GUIEvent,
    font: Seq<u8>,
    g: Globals,
) -> bool
    decreases cs, 0int,
{
    cs2.len() == cs.len() && (forall|i: int|
        0 <= i < cs.len() ==> {
            let run = stack_run(cs.subrange(0, i), horizontal, sp, scale, font, g);
            event_widget_rel(
                #[trigger] cs[i],
                cs2[i],
                if horizontal {
                    bx + run.0
                } else {
                    bx
                },
                if horizontal {
                    by
                } else {
                    by + run.0
                },
                scale,
                ev,
                font,
                g,
            )
        })
}

/// What one event dispatch asks of the host while walking the widget at
/// the given offset: cursor shapes in call order, whether a redraw was
/// requested, and the qualifying clicks in order.
pub open spec fn widget_event_effects(
    w: Widget,
    ox: int,
    oy: int,
    scale: Vector2,
    ev: GUIEvent,
    font: Seq<u8>,
    g: Globals,
) -> (Seq<CursorIcon>, bool, Seq<ButtonClickEvent>)
    decreases w, 1int,
{
    match w {
        Widget::Label(_) => (Seq::empty(), false, Seq::empty()),
        Widget::Button(b) => crate::button::button_event_effects(b, ox, oy, scale, ev, font, g),
        Widget::HorizontalStack(st) => stack_event_effects(
            st.children@,
            ox + scale_len_spec(st.options.margin.x as int, scale.x as int) + scale_len_spec(
                st.options.padding.x as int,
                scale.x as int,
            ),
            oy + scale_len_spec(st.options.margin.y as int, scale.y as int) + scale_len_spec(
                st.options.padding.y as int,
                scale.y as int,
            ),
            true,
            scale_len_spec(st.options.spacing.x as int, scale.x as int),
            scale,
            ev,
            font,
            g,
        ),
        Widget::VerticalStack(st) => stack_event_effects(
            st.children@,
            ox + scale_len_spec(st.options.margin.x as int, scale.x as int) + scale_len_spec(
                st.options.padding.x as int,
                scale.x as int,
            ),
            oy + scale_len_spec(st.options.margin.y as int, scale.y as int) + scale_len_spec(
                st.options.padding.y as int,
                scale.y as int,
            ),
            false,
            scale_len_spec(st.options.spacing.y as int, scale.y as int),
            scale,
            ev,
            font,
            g,
        ),
    }
}

/// What one event dispatch over a forest asks of the host: the children's
/// requests concatenated in layout order.
pub open spec fn stack_event_effects(
    cs: Seq<Widget>,
    bx: int,
    by: int,
    horizontal: bool,
    sp: int,
    scale: Vector2,
    ev: GUIEvent,
    font: Seq<u8>,
    g: Globals,
) -> (Seq<CursorIcon>, bool, Seq<ButtonClickEvent>)
    decreases cs, 0int,
{
    if cs.len() == 0 {
        (Seq::empty(), false, Seq::empty())
    } else {
        let prev = stack_event_effects(cs.drop_last(), bx, by, horizontal, sp, scale, ev, font, g);
        let run = stack_run(cs.drop_last(), horizontal, sp, scale, font, g);
        let r = widget_event_effects(
            cs.last(),
            if horizontal {
                bx + run.0
            } else {
                bx
            },
            if horizontal {
                by
            } else {
                by + run.0
            },
            scale,
            ev,
            font,
            g,
        );
        (prev.0 + r.0, prev.1 || r.1, prev.2 + r.2)
    }
}

/// One step of the dispatch effects: extending the prefix by child `i`
/// appends that child's requests at its running offset.
pub proof fn lemma_effects_step(
    cs: Seq<Widget>,
    i: int,
    bx: int,
    by: int,
    horizontal: bool,
    sp: int,
    scale: Vector2,
    ev: GUIEvent,
    font: Seq<u8>,
    g: Globals,
)
    requires
        0 <= i < cs.len(),
    ensures
        ({
            let run = stack_run(cs.subrange(0, i), horizontal, sp, scale, font, g);
            let prev = stack_event_effects(
                cs.subrange(0, i),
                bx,
                by,
                horizontal,
                sp,
                scale,
                ev,
                font,
                g,
            );
            let r = widget_event_effects(
                cs[i],
                if horizontal {
                    bx + run.0
                } else {
                    bx
                },
                if horizontal {
                    by
                } else {
                    by + run.0
                },
                scale,
                ev,
                font,
                g,
            );
            let here = stack_event_effects(
                cs.subrange(0, i + 1),
                bx,
                by,
                horizontal,
                sp,
                scale,
                ev,
                font,
                g,
            );
            here.0 == prev.0 + r.0 && here.1 == (prev.1 || r.1) && here.2 == prev.2 + r.2
        }),
{
    let ext = cs.subrange(0, i + 1);
    assert(ext.drop_last() =~= cs.subrange(0, i));
    assert(ext.last() == cs[i]);
}

/// Everything one step of a stack walk needs about child `i`: it is well
/// formed, its node count is within the walk's budget, the running
/// layout stays within machine range, and the offset the layout assigns
/// it leaves the child its own headroom.
pub proof fn lemma_stack_child_fits(
    cs: Seq<Widget>,
    i: int,
    horizontal: bool,
    sp: int,
    scale: Vector2,
    font: Seq<u8>,
    g: Globals,
    bx: int,
    by: int,
)
    requires
        wf_children(cs),
        scale_ok(scale),
        0 <= sp <= 1000000000,
        0 <= i < cs.len(),
        1 + nodes_seq(cs) <= NODE_LIMIT,
        -(OFFSET_LIMIT as int) + (1 + nodes_seq(cs)) * (SIZE_UNIT as int) <= bx,
        bx <= OFFSET_LIMIT as int - (1 + nodes_seq(cs)) * (SIZE_UNIT as int) + 2000000000,
        -(OFFSET_LIMIT as int) + (1 + nodes_seq(cs)) * (SIZE_UNIT as int) <= by,
        by <= OFFSET_LIMIT as int - (1 + nodes_seq(cs)) * (SIZE_UNIT as int) + 2000000000,
    ensures
        wf_widget(cs[i]),
        wf_children(cs.subrange(0, i)),
        nodes_spec(cs[i]) <= NODE_LIMIT,
        nodes_seq(cs.subrange(0, i + 1)) == nodes_seq(cs.subrange(0, i)) + nodes_spec(cs[i]),
        ({
            let run = stack_run(cs.subrange(0, i), horizontal, sp, scale, font, g);
            let next = stack_run(cs.subrange(0, i + 1), horizontal, sp, scale, font, g);
            let s = widget_size(cs[i], scale, font, g);
            let cx = if horizontal {
                bx + run.0
            } else {
                bx
            };
            let cy = if horizontal {
                by
            } else {
                by + run.0
            };
            &&& -(OFFSET_LIMIT as int) <= run.0 <= OFFSET_LIMIT as int
            &&& -(OFFSET_LIMIT as int) <= next.0 <= OFFSET_LIMIT as int
            &&& 0 <= run.1 <= OFFSET_LIMIT as int
            &&& 0 <= next.1 <= OFFSET_LIMIT as int
            &&& -(OFFSET_LIMIT as int) <= s.0 <= OFFSET_LIMIT as int
            &&& -(OFFSET_LIMIT as int) <= s.1 <= OFFSET_LIMIT as int
            &&& off_ok_axis(cx, nodes_spec(cs[i]))
            &&& off_ok_axis(cy, nodes_spec(cs[i]))
        }),
{
    lemma_wf_children_index(cs, i);
    lemma_nodes_seq_step(cs, i);
    lemma_nodes_seq_prefix(cs, i + 1);
    assert(cs.subrange(0, i + 1).drop_last() =~= cs.subrange(0, i));
    assert(cs.subrange(0, i + 1).last() == cs[i]);
    assert(wf_children(cs.subrange(0, i + 1)));
    let pre = cs.subrange(0, i);
    lemma_run_bounds(pre, horizontal, sp, scale, font, g);
    lemma_run_bounds(cs.subrange(0, i + 1), horizontal, sp, scale, font, g);
    lemma_size_bounds(cs[i], scale, font, g);
    lemma_run_step(cs, i, horizontal, sp, scale, font, g);
    lemma_mul_le(pre.len() as int, 8192, sp);
    lemma_mul_le(cs.subrange(0, i + 1).len() as int, 8192, sp);
    lemma_mul_le(sp, 1000000000, 8192);
    assert(nodes_seq(pre) + nodes_spec(cs[i]) <= nodes_seq(cs));
    assert((nodes_seq(pre) + nodes_spec(cs[i])) * (SIZE_UNIT as int) == nodes_seq(pre) * (
    SIZE_UNIT as int) + nodes_spec(cs[i]) * (SIZE_UNIT as int)) by (nonlinear_arith);
    lemma_mul_le((nodes_seq(pre) + nodes_spec(cs[i])) as int, nodes_seq(cs) as int, SIZE_UNIT as int);
    lemma_mul_le(nodes_seq(cs.subrange(0, i + 1)) as int, nodes_seq(cs) as int, SIZE_UNIT as int);
    lemma_mul_le(nodes_spec(cs[i]) as int, nodes_seq(cs) as int, SIZE_UNIT as int);
    lemma_mul_le(nodes_seq(cs) as int, NODE_LIMIT as int, SIZE_UNIT as int);
    assert((1 + nodes_seq(cs)) * (SIZE_UNIT as int) == SIZE_UNIT as int + nodes_seq(cs) * (
    SIZE_UNIT as int)) by (nonlinear_arith);
}

/// Event dispatch never changes layout: the tree an event leaves behind
/// is still well formed, has the same node count, and measures to the
/// same size — a hover flip has no geometric effect.
pub proof fn lemma_event_preserves_layout(
    w: Widget,
    w2: Widget,
    ox: int,
    oy: int,
    scale: Vector2,
    ev: GUIEvent,
    font: Seq<u8>,
    g: Globals,
)
    requires
        wf_widget(w),
        event_widget_rel(w, w2, ox, oy, scale, ev, font, g),
    ensures
        wf_widget(w2),
        nodes_spec(w2) == nodes_spec(w),
        widget_size(w2, scale, font, g) == widget_size(w, scale, font, g),
    decreases w, 2int,
{
    match w {
        Widget::Label(_) => {
        },
        Widget::Button(b) => {
        },
        Widget::HorizontalStack(st) => {
            let st2 = w2->HorizontalStack_0;
            lemma_children_preserve_layout(
                st.children@,
                st2.children@,
                ox + scale_len_spec(st.options.margin.x as int, scale.x as int) + scale_len_spec(
                    st.options.padding.x as int,
                    scale.x as int,
                ),
                oy + scale_len_spec(st.options.margin.y as int, scale.y as int) + scale_len_spec(
                    st.options.padding.y as int,
                    scale.y as int,
                ),
                true,
                scale_len_spec(st.options.spacing.x as int, scale.x as int),
                scale,
                ev,
                font,
                g,
            );
        },
        Widget::VerticalStack(st) => {
            let st2 = w2->VerticalStack_0;
            lemma_children_preserve_layout(
                st.children@,
                st2.children@,
                ox + scale_len_spec(st.options.margin.x as int, scale.x as int) + scale_len_spec(
                    st.options.padding.x as int,
                    scale.x as int,
                ),
                oy + scale_len_spec(st.options.margin.y as int, scale.y as int) + scale_len_spec(
                    st.options.padding.y as int,
                    scale.y as int,
                ),
                false,
                scale_len_spec(st.options.spacing.y as int, scale.y as int),
                scale,
                ev,
                font,
                g,
            );
        },
    }
}

/// Event dispatch over a forest preserves each child's layout, so it
/// preserves the running layout of the whole forest.
pub proof fn lemma_children_preserve_layout(
    cs: Seq<Widget>,
    cs2: Seq<Widget>,
    bx: int,
    by: int,
    horizontal: bool,
    sp: int,
    scale: Vector2,
    ev: GUIEvent,
    font: Seq<u8>,
    g: Globals,
)
    requires
        wf_children(cs),
        children_event_rel(cs, cs2, bx, by, horizontal, sp, scale, ev, font, g),
    ensures
        wf_children(cs2),
        nodes_seq(cs2) == nodes_seq(cs),
        stack_run(cs2, horizontal, sp, scale, font, g) == stack_run(
            cs,
            horizontal,
            sp,
            scale,
            font,
            g,
        ),
    decreases cs, 1int,
{
    if cs.len() == 0 {
        assert(cs2 =~= cs);
    } else {
        let pre = cs.drop_last();
        let pre2 = cs2.drop_last();
        let n = cs.len() as int;
        assert(children_event_rel(pre, pre2, bx, by, horizontal, sp, scale, ev, font, g)) by {
            assert forall|i: int| 0 <= i < pre.len() implies {
                let run = stack_run(pre.subrange(0, i), horizontal, sp, scale, font, g);
                event_widget_rel(
                    #[trigger] pre[i],
                    pre2[i],
                    if horizontal {
                        bx + run.0
                    } else {
                        bx
                    },
                    if horizontal {
                        by
                    } else {
                        by + run.0
                    },
                    scale,
                    ev,
                    font,
                    g,
                )
            } by {
                assert(pre.subrange(0, i) =~= cs.subrange(0, i));
                assert(pre[i] == cs[i] && pre2[i] == cs2[i]);
            }
        }
        lemma_children_preserve_layout(pre, pre2, bx, by, horizontal, sp, scale, ev, font, g);
        assert(cs.subrange(0, n - 1) =~= pre);
        assert(cs[n - 1] == cs.last() && cs2[n - 1] == cs2.last());
        lemma_event_preserves_layout(
            cs.last(),
            cs2.last(),
            if horizontal {
                bx + stack_run(pre, horizontal, sp, scale, font, g).0
            } else {
                bx
            },
            if horizontal {
                by
            } else {
                by + stack_run(pre, horizontal, sp, scale, font, g).0
            },
            scale,
            ev,
            font,
            g,
        );
    }
}

/// One step of the host-effect bookkeeping: what the host has collected
/// after child `i` handles the event equals the collection for the
/// extended prefix.
pub proof fn lemma_effects_concat(
    cs: Seq<Widget>,
    i: int,
    bx: int,
    by: int,
    horizontal: bool,
    sp: int,
    scale: Vector2,
    ev: GUIEvent,
    font: Seq<u8>,
    g: Globals,
    cursor0: Seq<CursorIcon>,
    clicks0: Seq<ButtonClickEvent>,
)
    requires
        0 <= i < cs.len(),
    ensures
        ({
            let run = stack_run(cs.subrange(0, i), horizontal, sp, scale, font, g);
            let prev = stack_event_effects(
                cs.subrange(0, i),
                bx,
                by,
                horizontal,
                sp,
                scale,
                ev,
                font,
                g,
            );
            let r = widget_event_effects(
                cs[i],
                if horizontal {
                    bx + run.0
                } else {
                    bx
                },
                if horizontal {
                    by
                } else {
                    by + run.0
                },
                scale,
                ev,
                font,
                g,
            );
            let here = stack_event_effects(
                cs.subrange(0, i + 1),
                bx,
                by,
                horizontal,
                sp,
                scale,
                ev,
                font,
                g,
            );
            (cursor0 + prev.0) + r.0 == cursor0 + here.0 && here.1 == (prev.1 || r.1) && (clicks0
                + prev.2) + r.2 == clicks0 + here.2
        }),
{
    lemma_effects_step(cs, i, bx, by, horizontal, sp, scale, ev, font, g);
    let prev = stack_event_effects(cs.subrange(0, i), bx, by, horizontal, sp, scale, ev, font, g);
    let run = stack_run(cs.subrange(0, i), horizontal, sp, scale, font, g);
    let r = widget_event_effects(
        cs[i],
        if horizontal {
            bx + run.0
        } else {
            bx
        },
        if horizontal {
            by
        } else {
            by + run.0
        },
        scale,
        ev,
        font,
        g,
    );
    assert((cursor0 + prev.0) + r.0 =~= cursor0 + (prev.0 + r.0));
    assert((clicks0 + prev.2) + r.2 =~= clicks0 + (prev.2 + r.2));
}

/// One step of the dispatch relation over a forest: a related prefix
/// extended by one more handled child is a related longer prefix.
pub proof fn lemma_children_rel_snoc(
    cs: Seq<Widget>,
    done: Seq<Widget>,
    i: int,
    w2: Widget,
    bx: int,
    by: int,
    horizontal: bool,
    sp: int,
    scale: Vector2,
    ev: GUIEvent,
    font: Seq<u8>,
    g: Globals,
)
    requires
        0 <= i < cs.len(),
        done.len() == i,
        children_event_rel(cs.subrange(0, i), done, bx, by, horizontal, sp, scale, ev, font, g),
        ({
            let run = stack_run(cs.subrange(0, i), horizontal, sp, scale, font, g);
            event_widget_rel(
                cs[i],
                w2,
                if horizontal {
                    bx + run.0
                } else {
                    bx
                },
                if horizontal {
                    by
                } else {
                    by + run.0
                },
                scale,
                ev,
                font,
                g,
            )
        }),
    ensures
        children_event_rel(
            cs.subrange(0, i + 1),
            done.push(w2),
            bx,
            by,
            horizontal,
            sp,
            scale,
            ev,
            font,
            g,
        ),
{
    let pre = cs.subrange(0, i);
    let ext = cs.subrange(0, i + 1);
    let done2 = done.push(w2);
    assert forall|j: int| 0 <= j < ext.len() implies {
        let run = stack_run(ext.subrange(0, j), horizontal, sp, scale, font, g);
        event_widget_rel(
            #[trigger] ext[j],
            done2[j],
            if horizontal {
                bx + run.0
            } else {
                bx
            },
            if horizontal {
                by
            } else {
                by + run.0
            },
            scale,
            ev,
            font,
            g,
        )
    } by {
        assert(ext.subrange(0, j) =~= cs.subrange(0, j));
        if j < i {
            assert(pre.subrange(0, j) =~= cs.subrange(0, j));
            assert(ext[j] == pre[j]);
            assert(done2[j] == done[j]);
        } else {
            assert(ext[j] == cs[i]);
            assert(done2[j] == w2);
        }
    }
}

/// The primitives a widget paints when drawn at the given offset, in
/// submission order.
pub open spec fn widget_prims(w: Widget, ox: int, oy: int, scale: Vector2, font: Seq<u8>, g: Globals) -> Seq<Primitive>
    decreases w, 1int,
{
    match w {
        Widget::Label(l) => crate::label::label_prims(l, ox, oy, scale, g),
        Widget::Button(b) => crate::button::button_prims(b, ox, oy, scale, font, g),
        Widget::HorizontalStack(st) => stack_prims(
            st.children@,
            ox + scale_len_spec(st.options.margin.x as int, scale.x as int) + scale_len_spec(
                st.options.padding.x as int,
                scale.x as int,
            ),
            oy + scale_len_spec(st.options.margin.y as int, scale.y as int) + scale_len_spec(
                st.options.padding.y as int,
                scale.y as int,
            ),
            true,
            scale_len_spec(st.options.spacing.x as int, scale.x as int),
            scale,
            font,
            g,
        ),
        Widget::VerticalStack(st) => stack_prims(
            st.children@,
            ox + scale_len_spec(st.options.margin.x as int, scale.x as int) + scale_len_spec(
                st.options.padding.x as int,
                scale.x as int,
            ),
            oy + scale_len_spec(st.options.margin.y as int, scale.y as int) + scale_len_spec(
                st.options.padding.y as int,
                scale.y as int,
            ),
            false,
            scale_len_spec(st.options.spacing.y as int, scale.y as int),
            scale,
            font,
            g,
        ),
    }
}

/// The primitives a forest paints: each child's primitives in order, at
/// the running offsets the layout assigns.
pub open spec fn stack_prims(
    cs: Seq<Widget>,
    bx: int,
    by: int,
    horizontal: bool,
    sp: int,
    scale: Vector2,
    font: Seq<u8>,
    g: Globals,
) -> Seq<Primitive>
    decreases cs, 0int,
{
    if cs.len() == 0 {
        Seq::empty()
    } else {
        let run = stack_run(cs.drop_last(), horizontal, sp, scale, font, g);
        let ox = if horizontal {
            bx + run.0
        } else {
            bx
        };
        let oy = if horizontal {
            by
        } else {
            by + run.0
        };
        stack_prims(cs.drop_last(), bx, by, horizontal, sp, scale, font, g) + widget_prims(
            cs.last(),
            ox,
            oy,
            scale,
            font,
            g,
        )
    }
}

/// One step of the painted sequence: extending the prefix by child `i`
/// appends that child's primitives at its running offset.
pub proof fn lemma_prims_step(
    cs: Seq<Widget>,
    i: int,
    bx: int,
    by: int,
    horizontal: bool,
    sp: int,
    scale: Vector2,
    font: Seq<u8>,
    g: Globals,
)
    requires
        0 <= i < cs.len(),
    ensures
        ({
            let run = stack_run(cs.subrange(0, i), horizontal, sp, scale, font, g);
            let ox = if horizontal {
                bx + run.0
            } else {
                bx
            };
            let oy = if horizontal {
                by
            } else {
                by + run.0
            };
            stack_prims(cs.subrange(0, i + 1), bx, by, horizontal, sp, scale, font, g)
                == stack_prims(cs.subrange(0, i), bx, by, horizontal, sp, scale, font, g)
                + widget_prims(cs[i], ox, oy, scale, font, g)
        }),
{
    let ext = cs.subrange(0, i + 1);
    assert(ext.drop_last() =~= cs.subrange(0, i));
    assert(ext.last() == cs[i]);
}

/// `a * c <= b * c` for `a <= b` and nonnegative factors.
pub proof fn lemma_mul_le(a: int, b: int, c: int)
    requires
        a <= b,
        0 <= c,
    ensures
        a * c <= b * c,
{
    assert(a * c <= b * c) by (nonlinear_arith)
        requires
            a <= b,
            0 <= c,
    ;
}

/// A scaled length lies between zero and a thousand times its bound.
pub proof fn lemma_scale_len_range(len: int, s: int, len_hi: int)
    requires
        0 <= len <= len_hi,
        0 <= s <= crate::geometry::SCALE_LIMIT,
    ensures
        0 <= scale_len_spec(len, s) <= len_hi * 1000,
        0 <= len * s <= len_hi * 1000000,
{
    assert(0 <= len * s <= len_hi * 1000000) by (nonlinear_arith)
        requires
            0 <= len <= len_hi,
            0 <= s <= 1000000,
    ;
    assert((len * s) / 1000 <= (len_hi * 1000000) / 1000) by (nonlinear_arith)
        requires
            len * s <= len_hi * 1000000,
    ;
    assert((len_hi * 1000000) / 1000 == len_hi * 1000) by (nonlinear_arith);
    assert(0 <= (len * s) / 1000) by (nonlinear_arith)
        requires
            0 <= len * s,
    ;
}

/// The measured size of a well-formed widget is bounded by its node
/// count times `SIZE_UNIT`, on both axes.
pub proof fn lemma_size_bounds(w: Widget, scale: Vector2, font: Seq<u8>, g: Globals)
    requires
        wf_widget(w),
        scale_ok(scale),
    ensures
        ({
            let s = widget_size(w, scale, font, g);
            let bound = nodes_spec(w) * (SIZE_UNIT as int);
            -bound <= s.0 <= bound && -bound <= s.1 <= bound
        }),
    decreases w, 0int,
{
    let s = widget_size(w, scale, font, g);
    match w {
        Widget::Label(l) => {
            crate::label::lemma_label_size_range(l, scale, font, g);
        },
        Widget::Button(b) => {
            crate::button::lemma_button_size_range(b, scale, font, g);
        },
        Widget::HorizontalStack(st) => {
            crate::stacks::lemma_stack_size_bounds(st.children@, st.options, true, scale, font, g);
        },
        Widget::VerticalStack(st) => {
            crate::stacks::lemma_stack_size_bounds(st.children@, st.options, false, scale, font, g);
        },
    }
}

/// A well-formed widget never measures to a degenerate box: both size
/// components are nonnegative, so the box `measure` returns always has
/// `min` at or before `max` on both axes.
pub proof fn lemma_size_nonneg(w: Widget, scale: Vector2, font: Seq<u8>, g: Globals)
    requires
        wf_widget(w),
        scale_ok(scale),
    ensures
        widget_size(w, scale, font, g).0 >= 0,
        widget_size(w, scale, font, g).1 >= 0,
    decreases w, 1int,
{
    match w {
        Widget::Label(l) => {
            crate::label::lemma_label_size_range(l, scale, font, g);
        },
        Widget::Button(b) => {
            crate::button::lemma_button_size_range(b, scale, font, g);
        },
        Widget::HorizontalStack(st) => {
            lemma_stack_case_nonneg(st.children@, st.options, true, scale, font, g);
        },
        Widget::VerticalStack(st) => {
            lemma_stack_case_nonneg(st.children@, st.options, false, scale, font, g);
        },
    }
}

/// The stack case of `lemma_size_nonneg`: with the trailing spacing term
/// only taken off after an actual child, the frame terms and the running
/// extent keep both size components at or above zero.
pub proof fn lemma_stack_case_nonneg(
    cs: Seq<Widget>,
    o: crate::stacks::LayoutCommonOptions,
    horizontal: bool,
    scale: Vector2,
    font: Seq<u8>,
    g: Globals,
)
    requires
        crate::stacks::wf_stack_options(o),
        wf_children(cs),
        scale_ok(scale),
    ensures
        crate::stacks::stack_size_spec(cs, o, horizontal, scale, font, g).0 >= 0,
        crate::stacks::stack_size_spec(cs, o, horizontal, scale, font, g).1 >= 0,
    decreases cs, 1int,
{
    lemma_scale_len_range(o.margin.x as int, scale.x as int, crate::geometry::LEN_LIMIT as int);
    lemma_scale_len_range(o.margin.y as int, scale.y as int, crate::geometry::LEN_LIMIT as int);
    lemma_scale_len_range(o.padding.x as int, scale.x as int, crate::geometry::LEN_LIMIT as int);
    lemma_scale_len_range(o.padding.y as int, scale.y as int, crate::geometry::LEN_LIMIT as int);
    lemma_scale_len_range(o.spacing.x as int, scale.x as int, crate::geometry::LEN_LIMIT as int);
    lemma_scale_len_range(o.spacing.y as int, scale.y as int, crate::geometry::LEN_LIMIT as int);
    let spx = scale_len_spec(o.spacing.x as int, scale.x as int);
    let spy = scale_len_spec(o.spacing.y as int, scale.y as int);
    let sp = if horizontal {
        spx
    } else {
        spy
    };
    lemma_run_nonneg(cs, horizontal, sp, scale, font, g);
    if cs.len() > 0 {
        lemma_mul_le(1, cs.len() as int, sp);
    }
}

/// The running layout of a well-formed forest never falls below one
/// spacing term per child on the primary axis, and its cross extent is
/// nonnegative.
pub proof fn lemma_run_nonneg(
    cs: Seq<Widget>,
    horizontal: bool,
    sp: int,
    scale: Vector2,
    font: Seq<u8>,
    g: Globals,
)
    requires
        wf_children(cs),
        scale_ok(scale),
        0 <= sp,
    ensures
        stack_run(cs, horizontal, sp, scale, font, g).0 >= cs.len() * sp,
        stack_run(cs, horizontal, sp, scale, font, g).1 >= 0,
    decreases cs, 0int,
{
    if cs.len() == 0 {
    } else {
        let pre = cs.drop_last();
        lemma_run_nonneg(pre, horizontal, sp, scale, font, g);
        lemma_size_nonneg(cs.last(), scale, font, g);
        let pl = pre.len() as int;
        let cl = cs.len() as int;
        assert(pl * sp + sp == cl * sp) by (nonlinear_arith)
            requires
                pl == cl - 1,
        ;
    }
}

/// The running layout of a well-formed forest is bounded by its node
/// count times `SIZE_UNIT`, plus one spacing term per child; the cross
/// extent is nonnegative.
pub proof fn lemma_run_bounds(
    cs: Seq<Widget>,
    horizontal: bool,
    sp: int,
    scale: Vector2,
    font: Seq<u8>,
    g: Globals,
)
    requires
        wf_children(cs),
        scale_ok(scale),
        0 <= sp <= 1000000000,
    ensures
        ({
            let run = stack_run(cs, horizontal, sp, scale, font, g);
            let bound = nodes_seq(cs) * (SIZE_UNIT as int) + cs.len() * sp;
            -bound <= run.0 <= bound && 0 <= run.1 <= nodes_seq(cs) * (SIZE_UNIT as int)
        }),
    decreases cs, 0int,
{
    if cs.len() == 0 {
    } else {
        let prefix = cs.drop_last();
        let last = cs.last();
        lemma_run_bounds(prefix, horizontal, sp, scale, font, g);
        lemma_size_bounds(last, scale, font, g);
        assert(nodes_seq(cs) == nodes_seq(prefix) + nodes_spec(last));
        lemma_mul_le(nodes_seq(prefix) as int, nodes_seq(cs) as int, SIZE_UNIT as int);
        lemma_mul_le(1, nodes_spec(last) as int, SIZE_UNIT as int);
        assert(nodes_seq(prefix) * (SIZE_UNIT as int) + nodes_spec(last) * (SIZE_UNIT as int)
            == nodes_seq(cs) * (SIZE_UNIT as int)) by (nonlinear_arith)
            requires
                nodes_seq(cs) == nodes_seq(prefix) + nodes_spec(last),
        ;
        let pl = prefix.len() as int;
        let cl = cs.len() as int;
        assert(pl * sp + sp == cl * sp) by (nonlinear_arith)
            requires
                pl == cl - 1,
        ;
    }
}

/// Node counts over a forest: one more child extends the count by the
/// child's own count.
pub proof fn lemma_nodes_seq_step(cs: Seq<Widget>, i: int)
    requires
        0 <= i < cs.len(),
    ensures
        nodes_seq(cs.subrange(0, i + 1)) == nodes_seq(cs.subrange(0, i)) + nodes_spec(cs[i]),
{
    let ext = cs.subrange(0, i + 1);
    assert(ext.drop_last() =~= cs.subrange(0, i));
    assert(ext.last() == cs[i]);
}

/// A prefix of a forest never holds more nodes than the whole forest.
pub proof fn lemma_nodes_seq_prefix(cs: Seq<Widget>, i: int)
    requires
        0 <= i <= cs.len(),
    ensures
        nodes_seq(cs.subrange(0, i)) <= nodes_seq(cs),
    decreases cs.len() - i,
{
    if i == cs.len() {
        assert(cs.subrange(0, i) =~= cs);
    } else {
        lemma_nodes_seq_step(cs, i);
        lemma_nodes_seq_prefix(cs, i + 1);
    }
}

/// Well-formedness of a forest restricts to prefixes and members.
pub proof fn lemma_wf_children_index(cs: Seq<Widget>, i: int)
    requires
        wf_children(cs),
        0 <= i < cs.len(),
    ensures
        wf_widget(cs[i]),
        wf_children(cs.subrange(0, i)),
    decreases cs.len(),
{
    if i == cs.len() - 1 {
        assert(cs.last() == cs[i]);
        assert(cs.drop_last() =~= cs.subrange(0, i));
    } else {
        lemma_wf_children_index(cs.drop_last(), i);
        assert(cs.drop_last().subrange(0, i) =~= cs.subrange(0, i));
        assert(cs.drop_last()[i] == cs[i]);
    }
}

/// The whole forest as a prefix of itself.
pub proof fn lemma_subrange_full(cs: Seq<Widget>)
    ensures
        cs.subrange(0, cs.len() as int) =~= cs,
{
}

/// One step of the running layout: extending the prefix by child `i`
/// advances the primary total by the child's extent plus spacing and the
/// cross maximum by the child's cross extent.
pub proof fn lemma_run_step(
    cs: Seq<Widget>,
    i: int,
    horizontal: bool,
    sp: int,
    scale: Vector2,
    font: Seq<u8>,
    g: Globals,
)
    requires
        0 <= i < cs.len(),
    ensures
        ({
            let prev = stack_run(cs.subrange(0, i), horizontal, sp, scale, font, g);
            let here = stack_run(cs.subrange(0, i + 1), horizontal, sp, scale, font, g);
            let s = widget_size(cs[i], scale, font, g);
            let p = if horizontal {
                s.0
            } else {
                s.1
            };
            let c = if horizontal {
                s.1
            } else {
                s.0
            };
            here.0 == prev.0 + p + sp && here.1 == (if prev.1 >= c {
                prev.1
            } else {
                c
            })
        }),
{
    let ext = cs.subrange(0, i + 1);
    assert(ext.drop_last() =~= cs.subrange(0, i));
    assert(ext.last() == cs[i]);
}

impl Widget {
    /// The box this widget would occupy drawn at `offset` with `scale`:
    /// corner at `offset`, extent `widget_size`. No side effects on the
    /// paint queue, so repeated calls with the same arguments agree.
    pub fn measure(&self, offset: Vector2, scale: Vector2, brush: &UniversalBrush, globals: &Globals) -> (b: BBox)
        requires
            wf_widget(*self),
            scale_ok(scale),
            nodes_spec(*self) <= NODE_LIMIT,
            off_ok(offset, nodes_spec(*self)),
        ensures
            b.min == offset,
            b.max.x == offset.x + widget_size(*self, scale, brush.font_data@, *globals).0,
            b.max.y == offset.y + widget_size(*self, scale, brush.font_data@, *globals).1,
        decreases *self,
    {
        match self {
            Widget::Label(l) => l.measure(offset, scale, brush, globals),
            Widget::Button(b) => b.measure(offset, scale, brush, globals),
            Widget::HorizontalStack(st) => st.measure(offset, scale, brush, globals),
            Widget::VerticalStack(st) => st.measure(offset, scale, brush, globals),
        }
    }

    /// Paint this widget into the surface and return the same box
    /// `measure` returns for these arguments.
    pub fn draw(&self, offset: Vector2, scale: Vector2, brush: &mut UniversalBrush, globals: &Globals) -> (b: BBox)
        requires
            wf_widget(*self),
            scale_ok(scale),
            nodes_spec(*self) <= NODE_LIMIT,
            off_ok(offset, nodes_spec(*self)),
        ensures
            final(brush).queue@ == old(brush).queue@ + widget_prims(
                *self,
                offset.x as int,
                offset.y as int,
                scale,
                old(brush).font_data@,
                *globals,
            ),
            final(brush).font_data@ == old(brush).font_data@,
            b.min == offset,
            b.max.x == offset.x + widget_size(*self, scale, old(brush).font_data@, *globals).0,
            b.max.y == offset.y + widget_size(*self, scale, old(brush).font_data@, *globals).1,
        decreases *self,
    {
        match self {
            Widget::Label(l) => l.draw(offset, scale, brush, globals),
            Widget::Button(b) => b.draw(offset, scale, brush, globals),
            Widget::HorizontalStack(st) => st.draw(offset, scale, brush, globals),
            Widget::VerticalStack(st) => st.draw(offset, scale, brush, globals),
        }
    }

    /// Deliver one input event to this widget and, through the layout's
    /// offsets, to every node below it. Hover flags update; everything a
    /// widget asks of the shell is recorded in `host`.
    pub fn handle_event(
        &mut self,
        host: &mut Host,
        brush: &UniversalBrush,
        offset: Vector2,
        scale: Vector2,
        event: &GUIEvent,
        globals: &Globals,
    )
        requires
            wf_widget(*old(self)),
            scale_ok(scale),
            nodes_spec(*old(self)) <= NODE_LIMIT,
            off_ok(offset, nodes_spec(*old(self))),
            ev_ok(*event),
        ensures
            event_widget_rel(
                *old(self),
                *final(self),
                offset.x as int,
                offset.y as int,
                scale,
                *event,
                brush.font_data@,
                *globals,
            ),
            ({
                let eff = widget_event_effects(
                    *old(self),
                    offset.x as int,
                    offset.y as int,
                    scale,
                    *event,
                    brush.font_data@,
                    *globals,
                );
                final(host).cursor_calls@ == old(host).cursor_calls@ + eff.0 && final(host).redraw_requested == (old(host).redraw_requested || eff.1) && final(host).clicks@
                    == old(host).clicks@ + eff.2
            }),
        decreases *old(self),
    {
        match self {
            Widget::Label(l) => {
                l.handle_event(host, brush, offset, scale, event, globals);
                proof {
                    assert(old(host).cursor_calls@ + Seq::<CursorIcon>::empty() =~= old(host).cursor_calls@);
                    assert(old(host).clicks@ + Seq::<ButtonClickEvent>::empty() =~= old(host).clicks@);
                }
            },
            Widget::Button(b) => {
                b.handle_event(host, brush, offset, scale, event, globals);
            },
            Widget::HorizontalStack(st) => {
                st.handle_event(host, brush, offset, scale, event, globals);
            },
            Widget::VerticalStack(st) => {
                st.handle_event(host, brush, offset, scale, event, globals);
            },
        }
    }
}

/// Check a widget tree before a walk: the result is the tree's node
/// count exactly when it is well formed and small enough for the layout
/// arithmetic, and `None` otherwise.
fn check_widget_rec(w: &Widget) -> (r: Option<usize>)
    ensures
        r is Some ==> wf_widget(*w) && r->0 == nodes_spec(*w) && nodes_spec(*w) <= NODE_LIMIT,
        r is None ==> !(wf_widget(*w) && nodes_spec(*w) <= NODE_LIMIT),
    decreases *w,
{
    match w {
        Widget::Label(l) => {
            if 0 <= l.scale && l.scale <= crate::geometry::LEN_LIMIT {
                Some(1)
            } else {
                None
            }
        },
        Widget::Button(b) => {
            let o = &b.options;
            let fixed_ok = (match o.width {
                Some(v) => 0 <= v && v <= crate::geometry::LEN_LIMIT,
                None => true,
            }) && (match o.height {
                Some(v) => 0 <= v && v <= crate::geometry::LEN_LIMIT,
                None => true,
            });
            if 0 <= o.padding.x && o.padding.x <= crate::geometry::LEN_LIMIT && 0 <= o.padding.y
                && o.padding.y <= crate::geometry::LEN_LIMIT && 0 <= o.margin.x && o.margin.x
                <= crate::geometry::LEN_LIMIT && 0 <= o.margin.y && o.margin.y
                <= crate::geometry::LEN_LIMIT && 0 <= o.scale && o.scale
                <= crate::geometry::LEN_LIMIT && fixed_ok && b.label.scale == o.scale
                && b.label.text == b.text && b.label.color == o.text_color && 0 <= b.label.scale
                && b.label.scale <= crate::geometry::LEN_LIMIT {
                Some(1)
            } else {
                None
            }
        },
        Widget::HorizontalStack(st) => {
            if !check_stack_options(&st.options) {
                return None;
            }
            match check_children(&st.children) {
                Some(k) => {
                    if k < NODE_LIMIT {
                        Some(k + 1)
                    } else {
                        None
                    }
                },
                None => None,
            }
        },
        Widget::VerticalStack(st) => {
            if !check_stack_options(&st.options) {
                return None;
            }
            match check_children(&st.children) {
                Some(k) => {
                    if k < NODE_LIMIT {
                        Some(k + 1)
                    } else {
                        None
                    }
                },
                None => None,
            }
        },
    }
}

/// Check a stack's own options.
fn check_stack_options(o: &crate::stacks::LayoutCommonOptions) -> (ok: bool)
    ensures
        ok == wf_stack_options(*o),
{
    0 <= o.padding.x && o.padding.x <= crate::geometry::LEN_LIMIT && 0 <= o.padding.y && o.padding.y
        <= crate::geometry::LEN_LIMIT && 0 <= o.margin.x && o.margin.x
        <= crate::geometry::LEN_LIMIT && 0 <= o.margin.y && o.margin.y
        <= crate::geometry::LEN_LIMIT && 0 <= o.spacing.x && o.spacing.x
        <= crate::geometry::LEN_LIMIT && 0 <= o.spacing.y && o.spacing.y
        <= crate::geometry::LEN_LIMIT
}

/// Check a stack's children and count their nodes, bailing out exactly
/// where the forest is malformed or too large.
#[verifier::loop_isolation(false)]
fn check_children(children: &Vec<Widget>) -> (r: Option<usize>)
    ensures
        r is Some ==> wf_children(children@) && r->0 == nodes_seq(children@) && nodes_seq(
            children@,
        ) <= NODE_LIMIT,
        r is None ==> !(wf_children(children@) && nodes_seq(children@) <= NODE_LIMIT),
    decreases children@,
{
    let n = children.len();
    if n > CHILD_LIMIT {
        return None;
    }
    let mut sum: usize = 0;
    let mut i: usize = 0;
    let ghost cs = children@;
    proof {
        assert(cs.subrange(0, 0) =~= Seq::<Widget>::empty());
    }
    while i < n
        invariant
            0 <= i <= n,
            wf_children(cs.subrange(0, i as int)),
            sum == nodes_seq(cs.subrange(0, i as int)),
            sum <= NODE_LIMIT,
        decreases n - i,
    {
        let k = match check_widget_rec(&children[i]) {
            Some(k) => k,
            None => {
                proof {
                    if wf_children(cs) {
                        lemma_wf_children_index(cs, i as int);
                        lemma_nodes_seq_step(cs, i as int);
                        lemma_nodes_seq_prefix(cs, i as int + 1);
                    }
                }
                return None;
            },
        };
        if sum > NODE_LIMIT - k {
            proof {
                lemma_nodes_seq_step(cs, i as int);
                lemma_nodes_seq_prefix(cs, i as int + 1);
            }
            return None;
        }
        proof {
            assert(cs.subrange(0, i as int + 1).drop_last() =~= cs.subrange(0, i as int));
            assert(cs.subrange(0, i as int + 1).last() == cs[i as int]);
        }
        sum = sum + k;
        i = i + 1;
    }
    proof {
        assert(cs.subrange(0, n as int) =~= cs);
    }
    Some(sum)
}

impl Widget {
    /// Whether the tree may be measured, drawn and given events: well
    /// formed, with no more than `NODE_LIMIT` nodes, and nothing else.
    pub fn check(&self) -> (ok: bool)
        ensures
            ok == (wf_widget(*self) && nodes_spec(*self) <= NODE_LIMIT),
    {
        match check_widget_rec(self) {
            Some(_) => true,
            None => false,
        }
    }

    /// The number of nodes in the tree, exactly when `check` would
    /// accept it.
    pub fn count_nodes(&self) -> (r: Option<usize>)
        ensures
            r is Some ==> wf_widget(*self) && r->0 == nodes_spec(*self) && nodes_spec(*self)
                <= NODE_LIMIT,
            r is None ==> !(wf_widget(*self) && nodes_spec(*self) <= NODE_LIMIT),
    {
        check_widget_rec(self)
    }
}

/// Measurement is idempotent: any two boxes meeting `measure`'s contract
/// for identical arguments are bit-identical.
pub proof fn lemma_measure_idempotent(
    w: Widget,
    offset: Vector2,
    scale: Vector2,
    font: Seq<u8>,
    g: Globals,
    b1: BBox,
    b2: BBox,
)
    requires
        b1.min == offset,
        b1.max.x == offset.x + widget_size(w, scale, font, g).0,
        b1.max.y == offset.y + widget_size(w, scale, font, g).1,
        b2.min == offset,
        b2.max.x == offset.x + widget_size(w, scale, font, g).0,
        b2.max.y == offset.y + widget_size(w, scale, font, g).1,
    ensures
        b1 == b2,
{
}

/// Drawing returns the measured box: any box meeting `draw`'s contract
/// equals any box meeting `measure`'s contract for identical arguments,
/// since both pin the box to `offset` and `widget_size`.
pub proof fn lemma_draw_measure_agree(
    w: Widget,
    offset: Vector2,
    scale: Vector2,
    font: Seq<u8>,
    g: Globals,
    drawn: BBox,
    measured: BBox,
)
    requires
        drawn.min == offset,
        drawn.max.x == offset.x + widget_size(w, scale, font, g).0,
        drawn.max.y == offset.y + widget_size(w, scale, font, g).1,
        measured.min == offset,
        measured.max.x == offset.x + widget_size(w, scale, font, g).0,
        measured.max.y == offset.y + widget_size(w, scale, font, g).1,
    ensures
        drawn == measured,
{
}

} // verus!
