use vstd::prelude::*;

use crate::fields::{
    field_map, keys_sorted, lemma_field_map_dom, lemma_field_map_value, lemma_sorted_unique, FieldView,
};
use crate::layer::LayerView;
use crate::order::{chars_lt, lemma_chars_lt_irreflexive, lemma_chars_lt_transitive};
use crate::render::{
    args_text, chain_text, function_name_text, head_text, line_text, message_part, message_text, outer_scopes,
    rendered_line, renders_as, residual_fields, residual_part, span_chain_text, span_name_text, EventDescriptor, ScopeDescriptor,
};
use crate::visitor::decimal;

verus! {

/// Rendering is deterministic: with coloring off, any two lines that meet
/// the rendering contract for the same event, settings and thread are the
/// same text.
pub proof fn lemma_rendering_deterministic(
    cfg: LayerView,
    ev: EventDescriptor,
    thread_id: u64,
    a: Seq<char>,
    b: Seq<char>,
)
    requires
        !cfg.use_color,
        renders_as(cfg, ev, thread_id, a),
        renders_as(cfg, ev, thread_id, b),
    ensures
        a == b,
{
}

/// With coloring on as well, rendering is deterministic past the level: a
/// line is its level text followed by a rest that depends on the event, the
/// settings and the thread alone, so any two renderings of one event differ
/// at most in how the level was painted.
pub proof fn lemma_rendering_deterministic_after_level(
    cfg: LayerView,
    ev: EventDescriptor,
    thread_id: u64,
    a: Seq<char>,
    b: Seq<char>,
)
    requires
        renders_as(cfg, ev, thread_id, a),
        renders_as(cfg, ev, thread_id, b),
    ensures
        exists|ta: Seq<char>, tb: Seq<char>|
            a == ta + rendered_line(cfg, ev, Seq::empty(), thread_id) && b == tb + rendered_line(
                cfg,
                ev,
                Seq::empty(),
                thread_id,
            ),
{
    let rest = rendered_line(cfg, ev, Seq::empty(), thread_id);
    assert forall|t: Seq<char>| #[trigger] rendered_line(cfg, ev, t, thread_id) == t + rest by {
        assert(rendered_line(cfg, ev, t, thread_id) =~= t + rest);
    }
    let ta = choose|t: Seq<char>| a == rendered_line(cfg, ev, t, thread_id);
    let tb = choose|t: Seq<char>| b == rendered_line(cfg, ev, t, thread_id);
    assert(a == ta + rest && b == tb + rest);
}

/// The fields of a record stand in key order whatever order they were
/// inserted in: two well-formed records that map the same keys to the same
/// values hold the same sequence of fields, and so render the same text.
pub proof fn lemma_field_order_independent(a: Seq<FieldView>, b: Seq<FieldView>)
    requires
        keys_sorted(a),
        keys_sorted(b),
        field_map(a) == field_map(b),
    ensures
        a == b,
    decreases a.len(),
{
    lemma_field_map_dom(a);
    lemma_field_map_dom(b);
    if a.len() == 0 {
        if b.len() > 0 {
            assert(field_map(b).dom().contains(b[0].0));
        }
        assert(a =~= b);
    } else if b.len() == 0 {
        assert(field_map(a).dom().contains(a[0].0));
    } else {
        let na = a.len() - 1;
        let nb = b.len() - 1;
        let ka = a[na].0;
        let kb = b[nb].0;
        assert(field_map(a).dom().contains(ka));
        assert(field_map(b).dom().contains(kb));
        let j = choose|j: int| 0 <= j < b.len() && b[j].0 == ka;
        let i = choose|i: int| 0 <= i < a.len() && a[i].0 == kb;
        if ka != kb {
            assert(j != nb);
            assert(chars_lt(b[j].0, b[nb].0));
            assert(i != na);
            assert(chars_lt(a[i].0, a[na].0));
            lemma_chars_lt_transitive(ka, kb, ka);
            lemma_chars_lt_irreflexive(ka);
        }
        lemma_sorted_unique(a);
        lemma_sorted_unique(b);
        lemma_field_map_value(a);
        lemma_field_map_value(b);
        assert(a[na].1 == b[nb].1);
        let a2 = a.drop_last();
        let b2 = b.drop_last();
        assert(keys_sorted(a2)) by {
            assert forall|x: int, y: int| 0 <= x < y < a2.len() implies chars_lt(#[trigger] a2[x].0, #[trigger] a2[y].0) by {
                assert(a2[x] == a[x] && a2[y] == a[y]);
            }
        }
        assert(keys_sorted(b2)) by {
            assert forall|x: int, y: int| 0 <= x < y < b2.len() implies chars_lt(#[trigger] b2[x].0, #[trigger] b2[y].0) by {
                assert(b2[x] == b[x] && b2[y] == b[y]);
            }
        }
        lemma_field_map_dom(a2);
        lemma_field_map_dom(b2);
        assert(!field_map(a2).dom().contains(ka)) by {
            if field_map(a2).dom().contains(ka) {
                let x = choose|x: int| 0 <= x < a2.len() && a2[x].0 == ka;
                assert(a[x].0 == a[na].0);
            }
        }
        assert(!field_map(b2).dom().contains(ka)) by {
            if field_map(b2).dom().contains(ka) {
                let x = choose|x: int| 0 <= x < b2.len() && b2[x].0 == ka;
                assert(b[x].0 == b[nb].0);
            }
        }
        assert(field_map(a2) =~= field_map(a).remove(ka));
        assert(field_map(b2) =~= field_map(b).remove(ka));
        lemma_field_order_independent(a2, b2);
        assert(a =~= a2.push(a[na]));
        assert(b =~= b2.push(b[nb]));
    }
}

/// The reserved key `message` never stands among the residual fields.
pub proof fn lemma_residual_has_no_message(ev: EventDescriptor)
    ensures
        forall|i: int| 0 <= i < residual_fields(ev).len() ==> (#[trigger] residual_fields(ev)[i]).0 != "message"@,
{
    let pred = |e: FieldView| e.0 != "message"@;
    assert forall|i: int| 0 <= i < residual_fields(ev).len() implies (#[trigger] residual_fields(ev)[i]).0 != "message"@ by {
        ev.fields@.lemma_filter_pred(pred, i);
    }
}

/// With no enclosing scope, the function name is the event's own name and
/// fields, and the chain holds at most the target.
pub proof fn lemma_no_scope_uses_event(cfg: LayerView, ev: EventDescriptor)
    requires
        ev.scopes@.len() == 0,
    ensures
        function_name_text(cfg, ev) == span_name_text(cfg, ev.name@, ev.fields@),
        span_chain_text(cfg, ev) == if cfg.log_target {
            ev.target@ + cfg.span_separator
        } else {
            Seq::empty()
        },
{
    assert(crate::render::chain_text(cfg, Seq::empty()) == Seq::<char>::empty());
    assert(span_chain_text(cfg, ev) =~= if cfg.log_target {
        ev.target@ + cfg.span_separator
    } else {
        Seq::empty()
    });
}

/// The configurable delimiters of a line.
pub ghost enum Delim {
    LevelSeparator,
    ThreadIdPrefix,
    ThreadIdSuffix,
    SpanSeparator,
    BracketLeft,
    BracketRight,
    ArgumentsEquality,
    ArgumentsSeparator,
    MessageSeparator,
}

/// A piece of a line: content, or a delimiter that the settings fill in.
pub ghost enum Piece {
    Text(Seq<char>),
    Delim(Delim),
}

/// The text that the settings give a delimiter.
pub open spec fn delim_text(cfg: LayerView, d: Delim) -> Seq<char> {
    match d {
        Delim::LevelSeparator => cfg.level_separator,
        Delim::ThreadIdPrefix => cfg.thread_id_prefix,
        Delim::ThreadIdSuffix => cfg.thread_id_suffix,
        Delim::SpanSeparator => cfg.span_separator,
        Delim::BracketLeft => cfg.function_bracket_left,
        Delim::BracketRight => cfg.function_bracket_right,
        Delim::ArgumentsEquality => cfg.arguments_equality,
        Delim::ArgumentsSeparator => cfg.arguments_separator,
        Delim::MessageSeparator => cfg.message_separator,
    }
}

/// The text of one piece.
pub open spec fn fill_one(x: Piece, cfg: LayerView) -> Seq<char> {
    match x {
        Piece::Text(t) => t,
        Piece::Delim(d) => delim_text(cfg, d),
    }
}

/// The text of a sequence of pieces under some settings.
pub open spec fn fill(p: Seq<Piece>, cfg: LayerView) -> Seq<char>
    decreases p.len(),
{
    if p.len() == 0 {
        Seq::empty()
    } else {
        fill(p.drop_last(), cfg) + fill_one(p.last(), cfg)
    }
}

/// The pieces of an argument list.
pub open spec fn args_pieces(s: Seq<FieldView>) -> Seq<Piece>
    decreases s.len(),
{
    if s.len() == 0 {
        Seq::empty()
    } else {
        (if s.len() == 1 {
            Seq::empty()
        } else {
            args_pieces(s.drop_last()).push(Piece::Delim(Delim::ArgumentsSeparator))
        }) + seq![Piece::Text(s.last().0), Piece::Delim(Delim::ArgumentsEquality), Piece::Text(s.last().1)]
    }
}

/// The pieces of a scope's name text.
pub open spec fn span_pieces(name: Seq<char>, fields: Seq<FieldView>) -> Seq<Piece> {
    seq![Piece::Text(name), Piece::Delim(Delim::BracketLeft)] + args_pieces(fields) + seq![
        Piece::Delim(Delim::BracketRight),
    ]
}

/// The pieces of the chain of scopes.
pub open spec fn chain_pieces(scopes: Seq<ScopeDescriptor>) -> Seq<Piece>
    decreases scopes.len(),
{
    if scopes.len() == 0 {
        Seq::empty()
    } else {
        chain_pieces(scopes.drop_last()) + span_pieces(scopes.last().name@, scopes.last().fields@) + seq![
            Piece::Delim(Delim::SpanSeparator),
        ]
    }
}

/// The pieces of the level and, when shown, the thread id.
pub open spec fn head_pieces(show_thread_id: bool, level_text: Seq<char>, thread_id: u64) -> Seq<Piece> {
    seq![Piece::Text(level_text), Piece::Delim(Delim::LevelSeparator)] + (if show_thread_id {
        seq![
            Piece::Delim(Delim::ThreadIdPrefix),
            Piece::Text(decimal(thread_id as nat)),
            Piece::Delim(Delim::ThreadIdSuffix),
        ]
    } else {
        Seq::empty()
    })
}

/// The pieces of the target and the scope chain.
pub open spec fn span_chain_pieces(show_target: bool, ev: EventDescriptor) -> Seq<Piece> {
    (if show_target {
        seq![Piece::Text(ev.target@), Piece::Delim(Delim::SpanSeparator)]
    } else {
        Seq::empty()
    }) + chain_pieces(outer_scopes(ev))
}

/// The pieces of the function name.
pub open spec fn function_pieces(ev: EventDescriptor) -> Seq<Piece> {
    if ev.scopes@.len() == 0 {
        span_pieces(ev.name@, ev.fields@)
    } else {
        span_pieces(ev.scopes@.last().name@, ev.scopes@.last().fields@)
    }
}

/// The pieces of the message and of the residual fields.
pub open spec fn tail_pieces(ev: EventDescriptor, residual_json: Seq<char>) -> Seq<Piece> {
    (if message_text(ev).len() > 0 {
        seq![Piece::Delim(Delim::MessageSeparator), Piece::Text(message_text(ev))]
    } else {
        Seq::empty()
    }) + (if residual_fields(ev).len() > 0 {
        seq![Piece::Delim(Delim::MessageSeparator), Piece::Text(residual_json)]
    } else {
        Seq::empty()
    })
}

/// The pieces of a whole line. They depend on the two switches that show or
/// hide parts, and on no delimiter.
pub open spec fn line_pieces(
    show_thread_id: bool,
    show_target: bool,
    ev: EventDescriptor,
    level_text: Seq<char>,
    thread_id: u64,
    residual_json: Seq<char>,
) -> Seq<Piece> {
    head_pieces(show_thread_id, level_text, thread_id) + span_chain_pieces(show_target, ev) + function_pieces(ev)
        + tail_pieces(ev, residual_json)
}

proof fn lemma_fill_append(p: Seq<Piece>, q: Seq<Piece>, cfg: LayerView)
    ensures
        fill(p + q, cfg) == fill(p, cfg) + fill(q, cfg),
    decreases q.len(),
{
    if q.len() == 0 {
        assert(p + q =~= p);
        assert(fill(p, cfg) + fill(q, cfg) =~= fill(p, cfg));
    } else {
        assert((p + q).drop_last() =~= p + q.drop_last());
        lemma_fill_append(p, q.drop_last(), cfg);
        assert(fill(p + q, cfg) =~= fill(p, cfg) + fill(q, cfg));
    }
}

proof fn lemma_fill_push(p: Seq<Piece>, x: Piece, cfg: LayerView)
    ensures
        fill(p.push(x), cfg) == fill(p, cfg) + fill_one(x, cfg),
{
    assert(p.push(x).drop_last() =~= p);
}

proof fn lemma_fill_short(p: Seq<Piece>, cfg: LayerView)
    requires
        p.len() <= 3,
    ensures
        p.len() == 0 ==> fill(p, cfg) == Seq::<char>::empty(),
        p.len() == 1 ==> fill(p, cfg) == fill_one(p[0], cfg),
        p.len() == 2 ==> fill(p, cfg) == fill_one(p[0], cfg) + fill_one(p[1], cfg),
        p.len() == 3 ==> fill(p, cfg) == fill_one(p[0], cfg) + fill_one(p[1], cfg) + fill_one(p[2], cfg),
{
    let e = Seq::<Piece>::empty();
    if p.len() >= 1 {
        lemma_fill_push(e, p[0], cfg);
        assert(Seq::<char>::empty() + fill_one(p[0], cfg) =~= fill_one(p[0], cfg));
        if p.len() == 1 {
            assert(p =~= e.push(p[0]));
        } else {
            lemma_fill_push(e.push(p[0]), p[1], cfg);
            if p.len() == 2 {
                assert(p =~= e.push(p[0]).push(p[1]));
            } else {
                lemma_fill_push(e.push(p[0]).push(p[1]), p[2], cfg);
                assert(p =~= e.push(p[0]).push(p[1]).push(p[2]));
            }
        }
    }
}

proof fn lemma_args_pieces(s: Seq<FieldView>, cfg: LayerView)
    ensures
        fill(args_pieces(s), cfg) == args_text(s, cfg.arguments_equality, cfg.arguments_separator),
    decreases s.len(),
{
    let last3 = seq![Piece::Text(s.last().0), Piece::Delim(Delim::ArgumentsEquality), Piece::Text(s.last().1)];
    if s.len() == 1 {
        lemma_fill_short(last3, cfg);
        assert(Seq::<Piece>::empty() + last3 =~= last3);
        assert(fill(last3, cfg) =~= s[0].0 + cfg.arguments_equality + s[0].1);
    } else if s.len() > 1 {
        lemma_args_pieces(s.drop_last(), cfg);
        let front = args_pieces(s.drop_last()).push(Piece::Delim(Delim::ArgumentsSeparator));
        lemma_fill_append(front, last3, cfg);
        lemma_fill_short(last3, cfg);
        assert(front.drop_last() =~= args_pieces(s.drop_last()));
        assert(fill(args_pieces(s), cfg) =~= args_text(s, cfg.arguments_equality, cfg.arguments_separator));
    }
}

proof fn lemma_span_pieces(name: Seq<char>, fields: Seq<FieldView>, cfg: LayerView)
    ensures
        fill(span_pieces(name, fields), cfg) == span_name_text(cfg, name, fields),
{
    let a = seq![Piece::Text(name), Piece::Delim(Delim::BracketLeft)];
    let b = args_pieces(fields);
    let c = seq![Piece::Delim(Delim::BracketRight)];
    lemma_fill_append(a + b, c, cfg);
    lemma_fill_append(a, b, cfg);
    lemma_fill_short(a, cfg);
    lemma_fill_short(c, cfg);
    lemma_args_pieces(fields, cfg);
    assert(fill(Seq::<Piece>::empty(), cfg) == Seq::<char>::empty());
    assert(fill(span_pieces(name, fields), cfg) =~= span_name_text(cfg, name, fields));
}

proof fn lemma_chain_pieces(scopes: Seq<ScopeDescriptor>, cfg: LayerView)
    ensures
        fill(chain_pieces(scopes), cfg) == chain_text(cfg, scopes),
    decreases scopes.len(),
{
    if scopes.len() > 0 {
        let a = chain_pieces(scopes.drop_last());
        let b = span_pieces(scopes.last().name@, scopes.last().fields@);
        let c = seq![Piece::Delim(Delim::SpanSeparator)];
        lemma_chain_pieces(scopes.drop_last(), cfg);
        lemma_fill_append(a + b, c, cfg);
        lemma_fill_append(a, b, cfg);
        lemma_fill_short(c, cfg);
        lemma_span_pieces(scopes.last().name@, scopes.last().fields@, cfg);
        assert(fill(Seq::<Piece>::empty(), cfg) == Seq::<char>::empty());
        assert(fill(chain_pieces(scopes), cfg) =~= chain_text(cfg, scopes));
    }
}

proof fn lemma_head_pieces(cfg: LayerView, level_text: Seq<char>, thread_id: u64)
    ensures
        fill(head_pieces(cfg.log_thread_id, level_text, thread_id), cfg) == head_text(cfg, level_text, thread_id),
{
    let p1 = seq![Piece::Text(level_text), Piece::Delim(Delim::LevelSeparator)];
    let p2 = if cfg.log_thread_id {
        seq![
            Piece::Delim(Delim::ThreadIdPrefix),
            Piece::Text(decimal(thread_id as nat)),
            Piece::Delim(Delim::ThreadIdSuffix),
        ]
    } else {
        Seq::empty()
    };
    lemma_fill_append(p1, p2, cfg);
    lemma_fill_short(p1, cfg);
    lemma_fill_short(p2, cfg);
    assert(fill(p1 + p2, cfg) =~= head_text(cfg, level_text, thread_id));
}

proof fn lemma_span_chain_pieces(cfg: LayerView, ev: EventDescriptor)
    ensures
        fill(span_chain_pieces(cfg.log_target, ev), cfg) == span_chain_text(cfg, ev),
{
    let p1 = if cfg.log_target {
        seq![Piece::Text(ev.target@), Piece::Delim(Delim::SpanSeparator)]
    } else {
        Seq::empty()
    };
    lemma_fill_append(p1, chain_pieces(outer_scopes(ev)), cfg);
    lemma_fill_short(p1, cfg);
    lemma_chain_pieces(outer_scopes(ev), cfg);
    assert(fill(span_chain_pieces(cfg.log_target, ev), cfg) =~= span_chain_text(cfg, ev));
}

proof fn lemma_tail_pieces(cfg: LayerView, ev: EventDescriptor, residual_json: Seq<char>)
    ensures
        fill(tail_pieces(ev, residual_json), cfg) == message_part(cfg, ev) + residual_part(cfg, ev, residual_json),
{
    let p1 = if message_text(ev).len() > 0 {
        seq![Piece::Delim(Delim::MessageSeparator), Piece::Text(message_text(ev))]
    } else {
        Seq::empty()
    };
    let p2 = if residual_fields(ev).len() > 0 {
        seq![Piece::Delim(Delim::MessageSeparator), Piece::Text(residual_json)]
    } else {
        Seq::empty()
    };
    lemma_fill_append(p1, p2, cfg);
    lemma_fill_short(p1, cfg);
    lemma_fill_short(p2, cfg);
    assert(fill(p1, cfg) =~= message_part(cfg, ev));
    assert(fill(p2, cfg) =~= residual_part(cfg, ev, residual_json));
}

/// A line is its pieces filled in with the settings' delimiters.
pub proof fn lemma_line_is_filled_pieces(
    cfg: LayerView,
    ev: EventDescriptor,
    level_text: Seq<char>,
    thread_id: u64,
    residual_json: Seq<char>,
)
    ensures
        line_text(cfg, ev, level_text, thread_id, residual_json) == fill(
            line_pieces(cfg.log_thread_id, cfg.log_target, ev, level_text, thread_id, residual_json),
            cfg,
        ),
{
    let h = head_pieces(cfg.log_thread_id, level_text, thread_id);
    let c = span_chain_pieces(cfg.log_target, ev);
    let f = function_pieces(ev);
    let t = tail_pieces(ev, residual_json);
    lemma_fill_append(h, c, cfg);
    lemma_fill_append(h + c, f, cfg);
    lemma_fill_append(h + c + f, t, cfg);
    lemma_head_pieces(cfg, level_text, thread_id);
    lemma_span_chain_pieces(cfg, ev);
    lemma_tail_pieces(cfg, ev, residual_json);
    if ev.scopes@.len() == 0 {
        lemma_span_pieces(ev.name@, ev.fields@, cfg);
    } else {
        lemma_span_pieces(ev.scopes@.last().name@, ev.scopes@.last().fields@, cfg);
    }
    assert(fill(f, cfg) == function_name_text(cfg, ev));
    assert(line_text(cfg, ev, level_text, thread_id, residual_json) =~= fill(h + c + f + t, cfg));
}

/// Changing delimiters changes only the delimiters: under two settings that
/// agree on whether the thread id and the target are shown, a line is the
/// same sequence of content pieces, each setting filling in its own
/// separators and brackets.
pub proof fn lemma_delimiters_only(
    a: LayerView,
    b: LayerView,
    ev: EventDescriptor,
    level_text: Seq<char>,
    thread_id: u64,
    residual_json: Seq<char>,
)
    requires
        a.log_thread_id == b.log_thread_id,
        a.log_target == b.log_target,
    ensures
        ({
            let p = line_pieces(a.log_thread_id, a.log_target, ev, level_text, thread_id, residual_json);
            &&& line_text(a, ev, level_text, thread_id, residual_json) == fill(p, a)
            &&& line_text(b, ev, level_text, thread_id, residual_json) == fill(p, b)
        }),
{
    lemma_line_is_filled_pieces(a, ev, level_text, thread_id, residual_json);
    lemma_line_is_filled_pieces(b, ev, level_text, thread_id, residual_json);
}

} // verus!
