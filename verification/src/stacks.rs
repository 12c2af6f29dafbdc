//! The layout containers: horizontal and vertical stacks. A stack lays
//! its children out along one axis, advancing a running offset by each
//! child's extent plus spacing, and reports a box covering the children
//! plus its own margin and padding.

use vstd::prelude::*;

use crate::geometry::BBox;
use crate::geometry::LEN_LIMIT;
use crate::geometry::Vector2;
use crate::geometry::scale_len;
use crate::geometry::scale_len_spec;
use crate::host::GUIEvent;
use crate::host::Host;
use crate::surface::UniversalBrush;
use crate::widget::Globals;
use crate::widget::NODE_LIMIT;
use crate::widget::SIZE_UNIT;
use crate::widget::Widget;
use crate::widget::children_event_rel;
use crate::widget::ev_ok;
use crate::widget::lemma_children_rel_snoc;
use crate::widget::lemma_mul_le;
use crate::widget::lemma_prims_step;
use crate::widget::lemma_run_bounds;
use crate::widget::lemma_run_step;
use crate::widget::lemma_scale_len_range;
use crate::widget::lemma_stack_child_fits;
use crate::widget::lemma_subrange_full;
use crate::widget::nodes_seq;
use crate::widget::off_ok;
use crate::widget::scale_ok;
use crate::widget::stack_event_effects;
use crate::widget::stack_prims;
use crate::widget::stack_run;
use crate::widget::wf_children;

verus! {

/// The options both stacks share: padding inside the box, margin around
/// it, and spacing between children, all whole pixels per axis and each
/// defaulting to zero.
#[derive(Debug, Clone, Copy, PartialEq, Eq, Structural)]
pub struct LayoutCommonOptions {
    pub padding: Vector2,
    pub margin: Vector2,
    pub spacing: Vector2,
}

/// Stack options are well formed when every length is sane.
pub open spec fn wf_stack_options(o: LayoutCommonOptions) -> bool {
    &&& 0 <= o.padding.x <= LEN_LIMIT
    &&& 0 <= o.padding.y <= LEN_LIMIT
    &&& 0 <= o.margin.x <= LEN_LIMIT
    &&& 0 <= o.margin.y <= LEN_LIMIT
    &&& 0 <= o.spacing.x <= LEN_LIMIT
    &&& 0 <= o.spacing.y <= LEN_LIMIT
}

/// The size a stack measures to: the children's running extent along the
/// primary axis with the one trailing spacing term after the last child
/// taken back off (spacing separates children, so an empty stack has no
/// spacing term at all), the maximum child extent across, and margin once
/// plus padding twice on each axis, all scaled.
pub open spec fn stack_size_spec(
    cs: Seq<Widget>,
    o: LayoutCommonOptions,
    horizontal: bool,
    scale: Vector2,
    font: Seq<u8>,
    g: Globals,
) -> (int, int)
    decreases cs, 1int,
{
    let mx = scale_len_spec(o.margin.x as int, scale.x as int);
    let my = scale_len_spec(o.margin.y as int, scale.y as int);
    let px = scale_len_spec(o.padding.x as int, scale.x as int);
    let py = scale_len_spec(o.padding.y as int, scale.y as int);
    let spx = scale_len_spec(o.spacing.x as int, scale.x as int);
    let spy = scale_len_spec(o.spacing.y as int, scale.y as int);
    if horizontal {
        let run = stack_run(cs, true, spx, scale, font, g);
        let trailing = if cs.len() == 0 {
            0
        } else {
            spx
        };
        (run.0 + mx + 2 * px - trailing, run.1 + my + 2 * py)
    } else {
        let run = stack_run(cs, false, spy, scale, font, g);
        let trailing = if cs.len() == 0 {
            0
        } else {
            spy
        };
        (run.1 + mx + 2 * px, run.0 + my + 2 * py - trailing)
    }
}

/// A well-formed stack's measured size lies within its node count times
/// `SIZE_UNIT` on both axes.
pub proof fn lemma_stack_size_bounds(
    cs: Seq<Widget>,
    o: LayoutCommonOptions,
    horizontal: bool,
    scale: Vector2,
    font: Seq<u8>,
    g: Globals,
)
    requires
        wf_stack_options(o),
        wf_children(cs),
        scale_ok(scale),
    ensures
        ({
            let s = stack_size_spec(cs, o, horizontal, scale, font, g);
            let bound = (1 + nodes_seq(cs)) * (SIZE_UNIT as int);
            -bound <= s.0 <= bound && -bound <= s.1 <= bound
        }),
    decreases cs, 1int,
{
    lemma_scale_len_range(o.margin.x as int, scale.x as int, LEN_LIMIT as int);
    lemma_scale_len_range(o.margin.y as int, scale.y as int, LEN_LIMIT as int);
    lemma_scale_len_range(o.padding.x as int, scale.x as int, LEN_LIMIT as int);
    lemma_scale_len_range(o.padding.y as int, scale.y as int, LEN_LIMIT as int);
    lemma_scale_len_range(o.spacing.x as int, scale.x as int, LEN_LIMIT as int);
    lemma_scale_len_range(o.spacing.y as int, scale.y as int, LEN_LIMIT as int);
    let spx = scale_len_spec(o.spacing.x as int, scale.x as int);
    let spy = scale_len_spec(o.spacing.y as int, scale.y as int);
    let sp = if horizontal {
        spx
    } else {
        spy
    };
    lemma_run_bounds(cs, horizontal, sp, scale, font, g);
    lemma_mul_le(cs.len() as int, 8192, sp);
    lemma_mul_le(sp, 1000000000, 8192);
    assert((1 + nodes_seq(cs)) * (SIZE_UNIT as int) == SIZE_UNIT as int + nodes_seq(cs) * (
    SIZE_UNIT as int)) by (nonlinear_arith);
}

/// The stacks' shared measuring pass: walk the children at a running
/// offset and combine their extents into the stack's own box.
#[verifier::loop_isolation(false)]
fn measure_stack(
    children: &Vec<Widget>,
    options: &LayoutCommonOptions,
    horizontal: bool,
    offset: Vector2,
    scale: Vector2,
    brush: &UniversalBrush,
    globals: &Globals,
) -> (b: BBox)
    requires
        wf_stack_options(*options),
        wf_children(children@),
        scale_ok(scale),
        1 + nodes_seq(children@) <= NODE_LIMIT,
        off_ok(offset, (1 + nodes_seq(children@)) as nat),
    ensures
        b.min == offset,
        b.max.x == offset.x + stack_size_spec(
            children@,
            *options,
            horizontal,
            scale,
            brush.font_data@,
            *globals,
        ).0,
        b.max.y == offset.y + stack_size_spec(
            children@,
            *options,
            horizontal,
            scale,
            brush.font_data@,
            *globals,
        ).1,
    decreases children@,
{
    let ghost cs = children@;
    let ghost font = brush.font_data@;
    proof {
        lemma_scale_len_range(options.margin.x as int, scale.x as int, LEN_LIMIT as int);
        lemma_scale_len_range(options.margin.y as int, scale.y as int, LEN_LIMIT as int);
        lemma_scale_len_range(options.padding.x as int, scale.x as int, LEN_LIMIT as int);
        lemma_scale_len_range(options.padding.y as int, scale.y as int, LEN_LIMIT as int);
        lemma_scale_len_range(options.spacing.x as int, scale.x as int, LEN_LIMIT as int);
        lemma_scale_len_range(options.spacing.y as int, scale.y as int, LEN_LIMIT as int);
    }
    let mx = scale_len(options.margin.x, scale.x);
    let my = scale_len(options.margin.y, scale.y);
    let px = scale_len(options.padding.x, scale.x);
    let py = scale_len(options.padding.y, scale.y);
    let spx = scale_len(options.spacing.x, scale.x);
    let spy = scale_len(options.spacing.y, scale.y);
    let sp = if horizontal {
        spx
    } else {
        spy
    };
    let bx = offset.x + mx + px;
    let by = offset.y + my + py;
    let mut n_off = Vector2 { x: bx, y: by };
    let mut run_p: i64 = 0;
    let mut run_c: i64 = 0;
    let n = children.len();
    let mut i: usize = 0;
    while i < n
        invariant
            0 <= i <= n,
            run_p == stack_run(cs.subrange(0, i as int), horizontal, sp as int, scale, font, *globals).0,
            run_c == stack_run(cs.subrange(0, i as int), horizontal, sp as int, scale, font, *globals).1,
            n_off.x == bx + if horizontal {
                run_p as int
            } else {
                0
            },
            n_off.y == by + if horizontal {
                0
            } else {
                run_p as int
            },
        decreases n - i,
    {
        proof {
            lemma_stack_child_fits(
                cs,
                i as int,
                horizontal,
                sp as int,
                scale,
                font,
                *globals,
                bx as int,
                by as int,
            );
            lemma_run_step(cs, i as int, horizontal, sp as int, scale, font, *globals);
        }
        let cb = children[i].measure(n_off, scale, brush, globals);
        let cw = cb.max.x - cb.min.x;
        let ch = cb.max.y - cb.min.y;
        let p = if horizontal {
            cw
        } else {
            ch
        };
        let c = if horizontal {
            ch
        } else {
            cw
        };
        run_p = run_p + p + sp;
        if c > run_c {
            run_c = c;
        }
        if horizontal {
            n_off.x = n_off.x + p + sp;
        } else {
            n_off.y = n_off.y + p + sp;
        }
        i = i + 1;
    }
    proof {
        lemma_subrange_full(cs);
        lemma_run_bounds(cs, horizontal, sp as int, scale, font, *globals);
        lemma_mul_le(cs.len() as int, 8192, sp as int);
        lemma_mul_le(sp as int, 1000000000, 8192);
        lemma_mul_le(nodes_seq(cs) as int, NODE_LIMIT as int, SIZE_UNIT as int);
    }
    let trailing = if n == 0 {
        0
    } else {
        sp
    };
    let szx = if horizontal {
        run_p + mx + 2 * px - trailing
    } else {
        run_c + mx + 2 * px
    };
    let szy = if horizontal {
        run_c + my + 2 * py
    } else {
        run_p + my + 2 * py - trailing
    };
    BBox { min: offset, max: Vector2 { x: offset.x + szx, y: offset.y + szy } }
}

/// The stacks' shared drawing pass: walk the children at a running
/// offset, painting each, and combine their extents into the stack's own
/// box.
#[verifier::loop_isolation(false)]
fn draw_stack(
    children: &Vec<Widget>,
    options: &LayoutCommonOptions,
    horizontal: bool,
    offset: Vector2,
    scale: Vector2,
    brush: &mut UniversalBrush,
    globals: &Globals,
) -> (b: BBox)
    requires
        wf_stack_options(*options),
        wf_children(children@),
        scale_ok(scale),
        1 + nodes_seq(children@) <= NODE_LIMIT,
        off_ok(offset, (1 + nodes_seq(children@)) as nat),
    ensures
        final(brush).queue@ == old(brush).queue@ + stack_prims(
            children@,
            offset.x + scale_len_spec(options.margin.x as int, scale.x as int) + scale_len_spec(
                options.padding.x as int,
                scale.x as int,
            ),
            offset.y + scale_len_spec(options.margin.y as int, scale.y as int) + scale_len_spec(
                options.padding.y as int,
                scale.y as int,
            ),
            horizontal,
            if horizontal {
                scale_len_spec(options.spacing.x as int, scale.x as int)
            } else {
                scale_len_spec(options.spacing.y as int, scale.y as int)
            },
            scale,
            old(brush).font_data@,
            *globals,
        ),
        final(brush).font_data@ == old(brush).font_data@,
        b.min == offset,
        b.max.x == offset.x + stack_size_spec(
            children@,
            *options,
            horizontal,
            scale,
            old(brush).font_data@,
            *globals,
        ).0,
        b.max.y == offset.y + stack_size_spec(
            children@,
            *options,
            horizontal,
            scale,
            old(brush).font_data@,
            *globals,
        ).1,
    decreases children@,
{
    let ghost cs = children@;
    let ghost font = old(brush).font_data@;
    proof {
        lemma_scale_len_range(options.margin.x as int, scale.x as int, LEN_LIMIT as int);
        lemma_scale_len_range(options.margin.y as int, scale.y as int, LEN_LIMIT as int);
        lemma_scale_len_range(options.padding.x as int, scale.x as int, LEN_LIMIT as int);
        lemma_scale_len_range(options.padding.y as int, scale.y as int, LEN_LIMIT as int);
        lemma_scale_len_range(options.spacing.x as int, scale.x as int, LEN_LIMIT as int);
        lemma_scale_len_range(options.spacing.y as int, scale.y as int, LEN_LIMIT as int);
    }
    let mx = scale_len(options.margin.x, scale.x);
    let my = scale_len(options.margin.y, scale.y);
    let px = scale_len(options.padding.x, scale.x);
    let py = scale_len(options.padding.y, scale.y);
    let spx = scale_len(options.spacing.x, scale.x);
    let spy = scale_len(options.spacing.y, scale.y);
    let sp = if horizontal {
        spx
    } else {
        spy
    };
    let bx = offset.x + mx + px;
    let by = offset.y + my + py;
    let mut n_off = Vector2 { x: bx, y: by };
    let mut run_p: i64 = 0;
    let mut run_c: i64 = 0;
    let n = children.len();
    let mut i: usize = 0;
    while i < n
        invariant
            0 <= i <= n,
            run_p == stack_run(cs.subrange(0, i as int), horizontal, sp as int, scale, font, *globals).0,
            run_c == stack_run(cs.subrange(0, i as int), horizontal, sp as int, scale, font, *globals).1,
            n_off.x == bx + if horizontal {
                run_p as int
            } else {
                0
            },
            n_off.y == by + if horizontal {
                0
            } else {
                run_p as int
            },
            brush.queue@ == old(brush).queue@ + stack_prims(
                cs.subrange(0, i as int),
                bx as int,
                by as int,
                horizontal,
                sp as int,
                scale,
                font,
                *globals,
            ),
            brush.font_data@ == font,
        decreases n - i,
    {
        proof {
            lemma_stack_child_fits(
                cs,
                i as int,
                horizontal,
                sp as int,
                scale,
                font,
                *globals,
                bx as int,
                by as int,
            );
            lemma_run_step(cs, i as int, horizontal, sp as int, scale, font, *globals);
            lemma_prims_step(cs, i as int, bx as int, by as int, horizontal, sp as int, scale, font, *globals);
        }
        let cb = children[i].draw(n_off, scale, brush, globals);
        proof {
            assert((old(brush).queue@ + stack_prims(
                cs.subrange(0, i as int),
                bx as int,
                by as int,
                horizontal,
                sp as int,
                scale,
                font,
                *globals,
            )) + crate::widget::widget_prims(
                cs[i as int],
                n_off.x as int,
                n_off.y as int,
                scale,
                font,
                *globals,
            ) =~= old(brush).queue@ + stack_prims(
                cs.subrange(0, i as int + 1),
                bx as int,
                by as int,
                horizontal,
                sp as int,
                scale,
                font,
                *globals,
            ));
        }
        let cw = cb.max.x - cb.min.x;
        let ch = cb.max.y - cb.min.y;
        let p = if horizontal {
            cw
        } else {
            ch
        };
        let c = if horizontal {
            ch
        } else {
            cw
        };
        run_p = run_p + p + sp;
        if c > run_c {
            run_c = c;
        }
        if horizontal {
            n_off.x = n_off.x + p + sp;
        } else {
            n_off.y = n_off.y + p + sp;
        }
        i = i + 1;
    }
    proof {
        lemma_subrange_full(cs);
        lemma_run_bounds(cs, horizontal, sp as int, scale, font, *globals);
        lemma_mul_le(cs.len() as int, 8192, sp as int);
        lemma_mul_le(sp as int, 1000000000, 8192);
        lemma_mul_le(nodes_seq(cs) as int, NODE_LIMIT as int, SIZE_UNIT as int);
    }
    let trailing = if n == 0 {
        0
    } else {
        sp
    };
    let szx = if horizontal {
        run_p + mx + 2 * px - trailing
    } else {
        run_c + mx + 2 * px
    };
    let szy = if horizontal {
        run_c + my + 2 * py
    } else {
        run_p + my + 2 * py - trailing
    };
    BBox { min: offset, max: Vector2 { x: offset.x + szx, y: offset.y + szy } }
}

/// The stacks' shared dispatch pass: walk the children at a running
/// offset, measuring each to find its offset and forwarding the event to
/// it unconditionally.
#[verifier::loop_isolation(false)]
#[verifier::rlimit(100)]
#[verifier::spinoff_prover]
fn event_stack(
    children: &mut Vec<Widget>,
    options: &LayoutCommonOptions,
    horizontal: bool,
    host: &mut Host,
    brush: &UniversalBrush,
    offset: Vector2,
    scale: Vector2,
    event: &GUIEvent,
    globals: &Globals,
)
    requires
        wf_stack_options(*options),
        wf_children(old(children)@),
        scale_ok(scale),
        1 + nodes_seq(old(children)@) <= NODE_LIMIT,
        off_ok(offset, (1 + nodes_seq(old(children)@)) as nat),
        ev_ok(*event),
    ensures
        ({
            let bx = offset.x + scale_len_spec(options.margin.x as int, scale.x as int)
                + scale_len_spec(options.padding.x as int, scale.x as int);
            let by = offset.y + scale_len_spec(options.margin.y as int, scale.y as int)
                + scale_len_spec(options.padding.y as int, scale.y as int);
            let sp = if horizontal {
                scale_len_spec(options.spacing.x as int, scale.x as int)
            } else {
                scale_len_spec(options.spacing.y as int, scale.y as int)
            };
            let eff = stack_event_effects(
                old(children)@,
                bx,
                by,
                horizontal,
                sp,
                scale,
                *event,
                brush.font_data@,
                *globals,
            );
            children_event_rel(
                old(children)@,
                final(children)@,
                bx,
                by,
                horizontal,
                sp,
                scale,
                *event,
                brush.font_data@,
                *globals,
            ) && final(host).cursor_calls@ == old(host).cursor_calls@ + eff.0 && final(host).redraw_requested == (old(host).redraw_requested || eff.1) && final(host).clicks@
                == old(host).clicks@ + eff.2
        }),
    decreases old(children)@,
{
    let ghost cs = old(children)@;
    let ghost font = brush.font_data@;
    proof {
        lemma_scale_len_range(options.margin.x as int, scale.x as int, LEN_LIMIT as int);
        lemma_scale_len_range(options.margin.y as int, scale.y as int, LEN_LIMIT as int);
        lemma_scale_len_range(options.padding.x as int, scale.x as int, LEN_LIMIT as int);
        lemma_scale_len_range(options.padding.y as int, scale.y as int, LEN_LIMIT as int);
        lemma_scale_len_range(options.spacing.x as int, scale.x as int, LEN_LIMIT as int);
        lemma_scale_len_range(options.spacing.y as int, scale.y as int, LEN_LIMIT as int);
    }
    let mx = scale_len(options.margin.x, scale.x);
    let my = scale_len(options.margin.y, scale.y);
    let px = scale_len(options.padding.x, scale.x);
    let py = scale_len(options.padding.y, scale.y);
    let spx = scale_len(options.spacing.x, scale.x);
    let spy = scale_len(options.spacing.y, scale.y);
    let sp = if horizontal {
        spx
    } else {
        spy
    };
    let bx = offset.x + mx + px;
    let by = offset.y + my + py;
    let mut n_off = Vector2 { x: bx, y: by };
    let mut run_p: i64 = 0;
    let n = children.len();
    let mut i: usize = 0;
    while i < n
        invariant
            0 <= i <= n,
            children@.len() == cs.len(),
            forall|j: int| i <= j < cs.len() ==> children@[j] == cs[j],
            children_event_rel(
                cs.subrange(0, i as int),
                children@.subrange(0, i as int),
                bx as int,
                by as int,
                horizontal,
                sp as int,
                scale,
                *event,
                font,
                *globals,
            ),
            run_p == stack_run(cs.subrange(0, i as int), horizontal, sp as int, scale, font, *globals).0,
            n_off.x == bx + if horizontal {
                run_p as int
            } else {
                0
            },
            n_off.y == by + if horizontal {
                0
            } else {
                run_p as int
            },
            ({
                let eff = stack_event_effects(
                    cs.subrange(0, i as int),
                    bx as int,
                    by as int,
                    horizontal,
                    sp as int,
                    scale,
                    *event,
                    font,
                    *globals,
                );
                host.cursor_calls@ == old(host).cursor_calls@ + eff.0 && host.redraw_requested == (
                old(host).redraw_requested || eff.1) && host.clicks@ == old(host).clicks@ + eff.2
            }),
        decreases n - i,
    {
        proof {
            lemma_stack_child_fits(
                cs,
                i as int,
                horizontal,
                sp as int,
                scale,
                font,
                *globals,
                bx as int,
                by as int,
            );
            lemma_run_step(cs, i as int, horizontal, sp as int, scale, font, *globals);
        }
        let ghost before = children@;
        let cb = children[i].measure(n_off, scale, brush, globals);
        children[i].handle_event(host, brush, n_off, scale, event, globals);
        proof {
            lemma_children_rel_snoc(
                cs,
                before.subrange(0, i as int),
                i as int,
                children@[i as int],
                bx as int,
                by as int,
                horizontal,
                sp as int,
                scale,
                *event,
                font,
                *globals,
            );
            assert(children@.subrange(0, i as int + 1) =~= before.subrange(0, i as int).push(
                children@[i as int],
            ));
            crate::widget::lemma_effects_concat(
                cs,
                i as int,
                bx as int,
                by as int,
                horizontal,
                sp as int,
                scale,
                *event,
                font,
                *globals,
                old(host).cursor_calls@,
                old(host).clicks@,
            );
        }
        let cw = cb.max.x - cb.min.x;
        let ch = cb.max.y - cb.min.y;
        let p = if horizontal {
            cw
        } else {
            ch
        };
        run_p = run_p + p + sp;
        if horizontal {
            n_off.x = n_off.x + p + sp;
        } else {
            n_off.y = n_off.y + p + sp;
        }
        i = i + 1;
    }
    proof {
        lemma_subrange_full(cs);
        assert(children@.subrange(0, cs.len() as int) =~= children@);
    }
}

/// A row of children laid out left to right.
pub struct HorizontalStack {
    pub children: Vec<Widget>,
    pub options: LayoutCommonOptions,
}

/// A column of children laid out top to bottom.
pub struct VerticalStack {
    pub children: Vec<Widget>,
    pub options: LayoutCommonOptions,
}

impl HorizontalStack {
    /// An empty row with zero padding, margin and spacing.
    pub fn new() -> (s: Self)
        ensures
            s.children@ == Seq::<Widget>::empty(),
            s.options == (LayoutCommonOptions {
                padding: Vector2 { x: 0, y: 0 },
                margin: Vector2 { x: 0, y: 0 },
                spacing: Vector2 { x: 0, y: 0 },
            }),
    {
        Self {
            children: Vec::new(),
            options: LayoutCommonOptions {
                padding: Vector2 { x: 0, y: 0 },
                margin: Vector2 { x: 0, y: 0 },
                spacing: Vector2 { x: 0, y: 0 },
            },
        }
    }

    pub fn with_padding(self, padding: Vector2) -> (s: Self)
        ensures
            s.children@ == self.children@,
            s.options == (LayoutCommonOptions { padding, ..self.options }),
    {
        Self { options: LayoutCommonOptions { padding, ..self.options }, ..self }
    }

    pub fn with_margin(self, margin: Vector2) -> (s: Self)
        ensures
            s.children@ == self.children@,
            s.options == (LayoutCommonOptions { margin, ..self.options }),
    {
        Self { options: LayoutCommonOptions { margin, ..self.options }, ..self }
    }

    pub fn with_spacing(self, spacing: Vector2) -> (s: Self)
        ensures
            s.children@ == self.children@,
            s.options == (LayoutCommonOptions { spacing, ..self.options }),
    {
        Self { options: LayoutCommonOptions { spacing, ..self.options }, ..self }
    }

    /// Append one child after the existing ones.
    pub fn add_child(self, child: Widget) -> (s: Self)
        ensures
            s.children@ == self.children@.push(child),
            s.options == self.options,
    {
        let mut children = self.children;
        children.push(child);
        Self { children, options: self.options }
    }

    /// Append children in order after the existing ones.
    pub fn add_children(self, more: Vec<Widget>) -> (s: Self)
        ensures
            s.children@ == self.children@ + more@,
            s.options == self.options,
    {
        let mut children = self.children;
        let mut more = more;
        children.append(&mut more);
        Self { children, options: self.options }
    }

    /// Wrap the stack as a widget tree node.
    pub fn build(self) -> (w: Widget)
        ensures
            w == Widget::HorizontalStack(self),
    {
        Widget::HorizontalStack(self)
    }

    /// The box this row would occupy drawn at `offset` with `scale`. No
    /// side effects on the paint queue.
    pub fn measure(&self, offset: Vector2, scale: Vector2, brush: &UniversalBrush, globals: &Globals) -> (b: BBox)
        requires
            wf_stack_options(self.options),
            wf_children(self.children@),
            scale_ok(scale),
            1 + nodes_seq(self.children@) <= NODE_LIMIT,
            off_ok(offset, (1 + nodes_seq(self.children@)) as nat),
        ensures
            b.min == offset,
            b.max.x == offset.x + stack_size_spec(
                self.children@,
                self.options,
                true,
                scale,
                brush.font_data@,
                *globals,
            ).0,
            b.max.y == offset.y + stack_size_spec(
                self.children@,
                self.options,
                true,
                scale,
                brush.font_data@,
                *globals,
            ).1,
        decreases *self,
    {
        measure_stack(&self.children, &self.options, true, offset, scale, brush, globals)
    }

    /// Paint the row's children in order at their running offsets and
    /// return the same box `measure` returns for these arguments.
    pub fn draw(&self, offset: Vector2, scale: Vector2, brush: &mut UniversalBrush, globals: &Globals) -> (b: BBox)
        requires
            wf_stack_options(self.options),
            wf_children(self.children@),
            scale_ok(scale),
            1 + nodes_seq(self.children@) <= NODE_LIMIT,
            off_ok(offset, (1 + nodes_seq(self.children@)) as nat),
        ensures
            final(brush).queue@ == old(brush).queue@ + stack_prims(
                self.children@,
                offset.x + scale_len_spec(self.options.margin.x as int, scale.x as int)
                    + scale_len_spec(self.options.padding.x as int, scale.x as int),
                offset.y + scale_len_spec(self.options.margin.y as int, scale.y as int)
                    + scale_len_spec(self.options.padding.y as int, scale.y as int),
                true,
                scale_len_spec(self.options.spacing.x as int, scale.x as int),
                scale,
                old(brush).font_data@,
                *globals,
            ),
            final(brush).font_data@ == old(brush).font_data@,
            b.min == offset,
            b.max.x == offset.x + stack_size_spec(
                self.children@,
                self.options,
                true,
                scale,
                old(brush).font_data@,
                *globals,
            ).0,
            b.max.y == offset.y + stack_size_spec(
                self.children@,
                self.options,
                true,
                scale,
                old(brush).font_data@,
                *globals,
            ).1,
        decreases *self,
    {
        draw_stack(&self.children, &self.options, true, offset, scale, brush, globals)
    }

    /// Deliver one input event to every child, measuring each in order to
    /// find the offset it was laid out at. Children receive every event;
    /// each leaf applies its own hit test.
    pub fn handle_event(
        &mut self,
        host: &mut Host,
        brush: &UniversalBrush,
        offset: Vector2,
        scale: Vector2,
        event: &GUIEvent,
        globals: &Globals,
    )
        requires
            wf_stack_options(old(self).options),
            wf_children(old(self).children@),
            scale_ok(scale),
            1 + nodes_seq(old(self).children@) <= NODE_LIMIT,
            off_ok(offset, (1 + nodes_seq(old(self).children@)) as nat),
            ev_ok(*event),
        ensures
            final(self).options == old(self).options,
            ({
                let bx = offset.x + scale_len_spec(old(self).options.margin.x as int, scale.x as int)
                    + scale_len_spec(old(self).options.padding.x as int, scale.x as int);
                let by = offset.y + scale_len_spec(old(self).options.margin.y as int, scale.y as int)
                    + scale_len_spec(old(self).options.padding.y as int, scale.y as int);
                let sp = scale_len_spec(old(self).options.spacing.x as int, scale.x as int);
                let eff = stack_event_effects(
                    old(self).children@,
                    bx,
                    by,
                    true,
                    sp,
                    scale,
                    *event,
                    brush.font_data@,
                    *globals,
                );
                children_event_rel(
                    old(self).children@,
                    final(self).children@,
                    bx,
                    by,
                    true,
                    sp,
                    scale,
                    *event,
                    brush.font_data@,
                    *globals,
                ) && final(host).cursor_calls@ == old(host).cursor_calls@ + eff.0 && final(host).redraw_requested == (old(host).redraw_requested || eff.1) && final(host).clicks@
                    == old(host).clicks@ + eff.2
            }),
        decreases *old(self),
    {
        event_stack(&mut self.children, &self.options, true, host, brush, offset, scale, event, globals);
    }
}

impl Default for HorizontalStack {
    fn default() -> (s: Self)
        ensures
            s.children@ == Seq::<Widget>::empty(),
            s.options == (LayoutCommonOptions {
                padding: Vector2 { x: 0, y: 0 },
                margin: Vector2 { x: 0, y: 0 },
                spacing: Vector2 { x: 0, y: 0 },
            }),
    {
        Self::new()
    }
}

impl VerticalStack {
    /// An empty column with zero padding, margin and spacing.
    pub fn new() -> (s: Self)
        ensures
            s.children@ == Seq::<Widget>::empty(),
            s.options == (LayoutCommonOptions {
                padding: Vector2 { x: 0, y: 0 },
                margin: Vector2 { x: 0, y: 0 },
                spacing: Vector2 { x: 0, y: 0 },
            }),
    {
        Self {
            children: Vec::new(),
            options: LayoutCommonOptions {
                padding: Vector2 { x: 0, y: 0 },
                margin: Vector2 { x: 0, y: 0 },
                spacing: Vector2 { x: 0, y: 0 },
            },
        }
    }

    pub fn with_padding(self, padding: Vector2) -> (s: Self)
        ensures
            s.children@ == self.children@,
            s.options == (LayoutCommonOptions { padding, ..self.options }),
    {
        Self { options: LayoutCommonOptions { padding, ..self.options }, ..self }
    }

    pub fn with_margin(self, margin: Vector2) -> (s: Self)
        ensures
            s.children@ == self.children@,
            s.options == (LayoutCommonOptions { margin, ..self.options }),
    {
        Self { options: LayoutCommonOptions { margin, ..self.options }, ..self }
    }

    pub fn with_spacing(self, spacing: Vector2) -> (s: Self)
        ensures
            s.children@ == self.children@,
            s.options == (LayoutCommonOptions { spacing, ..self.options }),
    {
        Self { options: LayoutCommonOptions { spacing, ..self.options }, ..self }
    }

    /// Append one child after the existing ones.
    pub fn add_child(self, child: Widget) -> (s: Self)
        ensures
            s.children@ == self.children@.push(child),
            s.options == self.options,
    {
        let mut children = self.children;
        children.push(child);
        Self { children, options: self.options }
    }

    /// Append children in order after the existing ones.
    pub fn add_children(self, more: Vec<Widget>) -> (s: Self)
        ensures
            s.children@ == self.children@ + more@,
            s.options == self.options,
    {
        let mut children = self.children;
        let mut more = more;
        children.append(&mut more);
        Self { children, options: self.options }
    }

    /// Wrap the stack as a widget tree node.
    pub fn build(self) -> (w: Widget)
        ensures
            w == Widget::VerticalStack(self),
    {
        Widget::VerticalStack(self)
    }

    /// The box this column would occupy drawn at `offset` with `scale`.
    /// No side effects on the paint queue.
    pub fn measure(&self, offset: Vector2, scale: Vector2, brush: &UniversalBrush, globals: &Globals) -> (b: BBox)
        requires
            wf_stack_options(self.options),
            wf_children(self.children@),
            scale_ok(scale),
            1 + nodes_seq(self.children@) <= NODE_LIMIT,
            off_ok(offset, (1 + nodes_seq(self.children@)) as nat),
        ensures
            b.min == offset,
            b.max.x == offset.x + stack_size_spec(
                self.children@,
                self.options,
                false,
                scale,
                brush.font_data@,
                *globals,
            ).0,
            b.max.y == offset.y + stack_size_spec(
                self.children@,
                self.options,
                false,
                scale,
                brush.font_data@,
                *globals,
            ).1,
        decreases *self,
    {
        measure_stack(&self.children, &self.options, false, offset, scale, brush, globals)
    }

    /// Paint the column's children in order at their running offsets and
    /// return the same box `measure` returns for these arguments.
    pub fn draw(&self, offset: Vector2, scale: Vector2, brush: &mut UniversalBrush, globals: &Globals) -> (b: BBox)
        requires
            wf_stack_options(self.options),
            wf_children(self.children@),
            scale_ok(scale),
            1 + nodes_seq(self.children@) <= NODE_LIMIT,
            off_ok(offset, (1 + nodes_seq(self.children@)) as nat),
        ensures
            final(brush).queue@ == old(brush).queue@ + stack_prims(
                self.children@,
                offset.x + scale_len_spec(self.options.margin.x as int, scale.x as int)
                    + scale_len_spec(self.options.padding.x as int, scale.x as int),
                offset.y + scale_len_spec(self.options.margin.y as int, scale.y as int)
                    + scale_len_spec(self.options.padding.y as int, scale.y as int),
                false,
                scale_len_spec(self.options.spacing.y as int, scale.y as int),
                scale,
                old(brush).font_data@,
                *globals,
            ),
            final(brush).font_data@ == old(brush).font_data@,
            b.min == offset,
            b.max.x == offset.x + stack_size_spec(
                self.children@,
                self.options,
                false,
                scale,
                old(brush).font_data@,
                *globals,
            ).0,
            b.max.y == offset.y + stack_size_spec(
                self.children@,
                self.options,
                false,
                scale,
                old(brush).font_data@,
                *globals,
            ).1,
        decreases *self,
    {
        draw_stack(&self.children, &self.options, false, offset, scale, brush, globals)
    }

    /// Deliver one input event to every child, measuring each in order to
    /// find the offset it was laid out at. Children receive every event;
    /// each leaf applies its own hit test.
    pub fn handle_event(
        &mut self,
        host: &mut Host,
        brush: &UniversalBrush,
        offset: Vector2,
        scale: Vector2,
        event: &GUIEvent,
        globals: &Globals,
    )
        requires
            wf_stack_options(old(self).options),
            wf_children(old(self).children@),
            scale_ok(scale),
            1 + nodes_seq(old(self).children@) <= NODE_LIMIT,
            off_ok(offset, (1 + nodes_seq(old(self).children@)) as nat),
            ev_ok(*event),
        ensures
            final(self).options == old(self).options,
            ({
                let bx = offset.x + scale_len_spec(old(self).options.margin.x as int, scale.x as int)
                    + scale_len_spec(old(self).options.padding.x as int, scale.x as int);
                let by = offset.y + scale_len_spec(old(self).options.margin.y as int, scale.y as int)
                    + scale_len_spec(old(self).options.padding.y as int, scale.y as int);
                let sp = scale_len_spec(old(self).options.spacing.y as int, scale.y as int);
                let eff = stack_event_effects(
                    old(self).children@,
                    bx,
                    by,
                    false,
                    sp,
                    scale,
                    *event,
                    brush.font_data@,
                    *globals,
                );
                children_event_rel(
                    old(self).children@,
                    final(self).children@,
                    bx,
                    by,
                    false,
                    sp,
                    scale,
                    *event,
                    brush.font_data@,
                    *globals,
                ) && final(host).cursor_calls@ == old(host).cursor_calls@ + eff.0 && final(host).redraw_requested == (old(host).redraw_requested || eff.1) && final(host).clicks@
                    == old(host).clicks@ + eff.2
            }),
        decreases *old(self),
    {
        event_stack(&mut self.children, &self.options, false, host, brush, offset, scale, event, globals);
    }
}

impl Default for VerticalStack {
    fn default() -> (s: Self)
        ensures
            s.children@ == Seq::<Widget>::empty(),
            s.options == (LayoutCommonOptions {
                padding: Vector2 { x: 0, y: 0 },
                margin: Vector2 { x: 0, y: 0 },
                spacing: Vector2 { x: 0, y: 0 },
            }),
    {
        Self::new()
    }
}

} // verus!
