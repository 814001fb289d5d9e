use vstd::prelude::*;

use crate::fields::{
    field_map, json_members, json_object_text, json_verbatim_fields, keys_sorted, without_key, FieldView,
    SystemdFieldStorage,
};
use crate::layer::{LayerView, SystemdLayer};
use crate::level::{level_name, Level};
use crate::paint::{paint_level, painted_outcome};
use crate::visitor::{decimal, decimal_string};

verus! {

/// One enclosing scope at the moment an event is rendered: its name and the
/// fields captured when it was entered.
pub struct ScopeDescriptor {
    pub name: String,
    pub fields: SystemdFieldStorage,
}

/// One event: where it comes from, its level, its own fields (the message
/// under the key `message`, if it has one) and its enclosing scopes, from the
/// root to the innermost.
pub struct EventDescriptor {
    pub target: String,
    pub name: String,
    pub level: Level,
    pub fields: SystemdFieldStorage,
    pub scopes: Vec<ScopeDescriptor>,
}

/// `key<EQ>value` for one field.
pub open spec fn arg_text(e: FieldView, eq: Seq<char>) -> Seq<char> {
    e.0 + eq + e.1
}

/// The fields in their order, each as `key<EQ>value`, with `sep` between two.
pub open spec fn args_text(s: Seq<FieldView>, eq: Seq<char>, sep: Seq<char>) -> Seq<char>
    decreases s.len(),
{
    if s.len() == 0 {
        Seq::empty()
    } else if s.len() == 1 {
        arg_text(s[0], eq)
    } else {
        args_text(s.drop_last(), eq, sep) + sep + arg_text(s.last(), eq)
    }
}

/// `name<L>k1<EQ>v1<SEP>k2<EQ>v2...<R>`.
pub open spec fn span_name_text(cfg: LayerView, name: Seq<char>, fields: Seq<FieldView>) -> Seq<char> {
    name + cfg.function_bracket_left + args_text(fields, cfg.arguments_equality, cfg.arguments_separator)
        + cfg.function_bracket_right
}

/// Each scope's name text followed by the span separator, root first.
pub open spec fn chain_text(cfg: LayerView, scopes: Seq<ScopeDescriptor>) -> Seq<char>
    decreases scopes.len(),
{
    if scopes.len() == 0 {
        Seq::empty()
    } else {
        chain_text(cfg, scopes.drop_last()) + span_name_text(cfg, scopes.last().name@, scopes.last().fields@)
            + cfg.span_separator
    }
}

/// The scopes that enclose the innermost one.
pub open spec fn outer_scopes(ev: EventDescriptor) -> Seq<ScopeDescriptor> {
    if ev.scopes@.len() == 0 {
        Seq::empty()
    } else {
        ev.scopes@.drop_last()
    }
}

/// The target (when shown) and the chain of the outer scopes.
pub open spec fn span_chain_text(cfg: LayerView, ev: EventDescriptor) -> Seq<char> {
    (if cfg.log_target {
        ev.target@ + cfg.span_separator
    } else {
        Seq::empty()
    }) + chain_text(cfg, outer_scopes(ev))
}

/// The innermost scope's name text; with no scope, the event's own name and
/// fields take its place.
pub open spec fn function_name_text(cfg: LayerView, ev: EventDescriptor) -> Seq<char> {
    if ev.scopes@.len() == 0 {
        span_name_text(cfg, ev.name@, ev.fields@)
    } else {
        span_name_text(cfg, ev.scopes@.last().name@, ev.scopes@.last().fields@)
    }
}

/// The level text, its separator and, when shown, the wrapped thread id.
pub open spec fn head_text(cfg: LayerView, level_text: Seq<char>, thread_id: u64) -> Seq<char> {
    level_text + cfg.level_separator + (if cfg.log_thread_id {
        cfg.thread_id_prefix + decimal(thread_id as nat) + cfg.thread_id_suffix
    } else {
        Seq::empty()
    })
}

/// The event's message, or nothing when it has none.
pub open spec fn message_text(ev: EventDescriptor) -> Seq<char> {
    if field_map(ev.fields@).dom().contains("message"@) {
        field_map(ev.fields@)["message"@]
    } else {
        Seq::empty()
    }
}

/// The event's fields other than the message.
pub open spec fn residual_fields(ev: EventDescriptor) -> Seq<FieldView> {
    without_key(ev.fields@, "message"@)
}

/// The separator and the message, when the message is not empty.
pub open spec fn message_part(cfg: LayerView, ev: EventDescriptor) -> Seq<char> {
    if message_text(ev).len() > 0 {
        cfg.message_separator + message_text(ev)
    } else {
        Seq::empty()
    }
}

/// The separator and the serialized residual fields, when there are any.
pub open spec fn residual_part(cfg: LayerView, ev: EventDescriptor, residual_json: Seq<char>) -> Seq<char> {
    if residual_fields(ev).len() > 0 {
        cfg.message_separator + residual_json
    } else {
        Seq::empty()
    }
}

/// The whole line, given the level text and the serialized residual fields.
pub open spec fn line_text(
    cfg: LayerView,
    ev: EventDescriptor,
    level_text: Seq<char>,
    thread_id: u64,
    residual_json: Seq<char>,
) -> Seq<char> {
    head_text(cfg, level_text, thread_id) + span_chain_text(cfg, ev) + function_name_text(cfg, ev)
        + message_part(cfg, ev) + residual_part(cfg, ev, residual_json)
}

/// The line of an event, its residual fields serialized as JSON.
pub open spec fn rendered_line(cfg: LayerView, ev: EventDescriptor, level_text: Seq<char>, thread_id: u64) -> Seq<char> {
    line_text(cfg, ev, level_text, thread_id, json_object_text(residual_fields(ev)))
}

/// What a rendered line may be: with the plain level name, or, where color
/// is asked for, with any text that painting the level may give (coloring
/// itself may be switched off by the environment or by another thread).
pub open spec fn renders_as(cfg: LayerView, ev: EventDescriptor, thread_id: u64, r: Seq<char>) -> bool {
    ||| r == rendered_line(cfg, ev, level_name(ev.level), thread_id)
    ||| exists|t: Seq<char>|
        cfg.use_color && #[trigger] painted_outcome(ev.level, t) && r == rendered_line(cfg, ev, t, thread_id)
}

proof fn lemma_args_step(s: Seq<FieldView>, i: int, eq: Seq<char>, sep: Seq<char>)
    requires
        0 <= i < s.len(),
    ensures
        args_text(s.take(i + 1), eq, sep) == if i == 0 {
            arg_text(s[0], eq)
        } else {
            args_text(s.take(i), eq, sep) + sep + arg_text(s[i], eq)
        },
{
    assert(s.take(i + 1).drop_last() =~= s.take(i));
    assert(s.take(i + 1).last() == s[i]);
}

proof fn lemma_chain_step(cfg: LayerView, s: Seq<ScopeDescriptor>, i: int)
    requires
        0 <= i < s.len(),
    ensures
        chain_text(cfg, s.take(i + 1)) == chain_text(cfg, s.take(i)) + span_name_text(cfg, s[i].name@, s[i].fields@)
            + cfg.span_separator,
{
    assert(s.take(i + 1).drop_last() =~= s.take(i));
    assert(s.take(i + 1).last() == s[i]);
}

impl SystemdLayer {
    /// Renders one scope (or an event standing for one) as
    /// `name<L>k1<EQ>v1<SEP>...<R>`, fields in key order.
    pub fn build_span_name(&self, name: &str, fields: &SystemdFieldStorage) -> (r: String)
        ensures
            r@ == span_name_text(self@, name@, fields@),
            keys_sorted(fields@),
    {
        proof {
            use_type_invariant(fields);
        }
        let eq = self.get_arguments_equality();
        let sep = self.get_arguments_separator();
        let mut args = String::from_str(self.get_function_bracket_left());
        let n = fields.len();
        let mut i: usize = 0;
        while i < n
            invariant
                n == fields@.len(),
                i <= n,
                eq@ == self@.arguments_equality,
                sep@ == self@.arguments_separator,
                args@ == self@.function_bracket_left + args_text(fields@.take(i as int), eq@, sep@),
            decreases n - i,
        {
            proof {
                lemma_args_step(fields@, i as int, eq@, sep@);
            }
            let ghost before = args@;
            if i > 0 {
                args.append(sep);
            }
            args.append(fields.key_at(i).as_str());
            args.append(eq);
            args.append(fields.value_at(i).as_str());
            if i == 0 {
                assert(fields@.take(0) =~= Seq::<FieldView>::empty());
                assert(args@ =~= self@.function_bracket_left + args_text(fields@.take(1), eq@, sep@));
            } else {
                assert(args@ =~= before + sep@ + arg_text(fields@[i as int], eq@));
            }
            i = i + 1;
        }
        assert(fields@.take(n as int) =~= fields@);
        args.append(self.get_function_bracket_right());
        let mut r = String::from_str(name);
        r.append(args.as_str());
        assert(r@ =~= span_name_text(self@, name@, fields@));
        r
    }

    /// Renders the target (when shown) and the names of the scopes that
    /// enclose the innermost one, each followed by the span separator.
    fn build_span_chain(&self, ev: &EventDescriptor) -> (r: String)
        ensures
            r@ == span_chain_text(self@, *ev),
    {
        let sep = self.get_span_separator();
        let mut chain = if self.get_log_target() {
            let mut t = String::from_str(ev.target.as_str());
            t.append(sep);
            t
        } else {
            String::new()
        };
        let ghost lead = chain@;
        let total = ev.scopes.len();
        let m: usize = if total == 0 {
            0
        } else {
            total - 1
        };
        let ghost outer = outer_scopes(*ev);
        assert(outer.len() == m);
        let mut i: usize = 0;
        while i < m
            invariant
                i <= m,
                m == outer.len(),
                total == ev.scopes@.len(),
                outer == outer_scopes(*ev),
                sep@ == self@.span_separator,
                chain@ == lead + chain_text(self@, outer.take(i as int)),
            decreases m - i,
        {
            proof {
                lemma_chain_step(self@, outer, i as int);
            }
            assert(outer[i as int] == ev.scopes@[i as int]);
            let ghost before = chain@;
            let scope = &ev.scopes[i];
            let name = self.build_span_name(scope.name.as_str(), &scope.fields);
            chain.append(name.as_str());
            chain.append(sep);
            assert(chain@ =~= before + span_name_text(self@, outer[i as int].name@, outer[i as int].fields@) + sep@);
            i = i + 1;
        }
        assert(outer.take(m as int) =~= outer);
        assert(chain@ =~= span_chain_text(self@, *ev));
        chain
    }

    /// Assembles the line of an event from its parts:
    /// `<level><SEP>[<tid>]<chain><function name>[<MSEP><message>][<MSEP><residual>]`,
    /// given the level text and the serialized residual fields.
    pub fn assemble_line(&self, ev: &EventDescriptor, level_text: &str, thread_id: u64, residual_json: &str) -> (r: String)
        ensures
            r@ == line_text(self@, *ev, level_text@, thread_id, residual_json@),
    {
        let mut line = String::from_str(level_text);
        line.append(self.get_level_separator());
        if self.get_log_thread_id() {
            line.append(self.get_thread_id_prefix());
            let digits = decimal_string(thread_id);
            line.append(digits.as_str());
            line.append(self.get_thread_id_suffix());
        }
        assert(line@ =~= head_text(self@, level_text@, thread_id));
        let chain = self.build_span_chain(ev);
        line.append(chain.as_str());
        let function_name = if ev.scopes.len() == 0 {
            self.build_span_name(ev.name.as_str(), &ev.fields)
        } else {
            let last = &ev.scopes[ev.scopes.len() - 1];
            self.build_span_name(last.name.as_str(), &last.fields)
        };
        line.append(function_name.as_str());
        let ghost front = line@;
        match ev.fields.get("message") {
            Some(message) => {
                if message.as_str().unicode_len() > 0 {
                    line.append(self.get_message_separator());
                    line.append(message.as_str());
                }
            },
            None => {},
        }
        assert(line@ =~= front + message_part(self@, *ev));
        let ghost middle = line@;
        let residual = ev.fields.without("message");
        if residual.len() > 0 {
            line.append(self.get_message_separator());
            line.append(residual_json);
        }
        assert(line@ =~= middle + residual_part(self@, *ev, residual_json@));
        assert(line@ =~= line_text(self@, *ev, level_text@, thread_id, residual_json@));
        line
    }

    /// Renders the line of an event: the level (colored where asked for),
    /// the thread id where asked for, the scope chain, the message and the
    /// residual fields as compact JSON.
    pub fn build_full_string(&self, ev: &EventDescriptor, thread_id: u64) -> (r: String)
        ensures
            renders_as(self@, *ev, thread_id, r@),
            !self@.use_color ==> r@ == rendered_line(self@, *ev, level_name(ev.level), thread_id),
            !self@.use_color && json_verbatim_fields(residual_fields(*ev)) ==> r@ == line_text(
                self@,
                *ev,
                level_name(ev.level),
                thread_id,
                "{"@ + json_members(residual_fields(*ev)) + "}"@,
            ),
    {
        let level_text = if self.get_use_color() {
            paint_level(ev.level)
        } else {
            String::from_str(ev.level.as_str())
        };
        let residual = ev.fields.without("message");
        let json = if residual.len() > 0 {
            residual.to_json()
        } else {
            String::new()
        };
        let r = self.assemble_line(ev, level_text.as_str(), thread_id, json.as_str());
        assert(r@ == rendered_line(self@, *ev, level_text@, thread_id));
        r
    }
}

} // verus!
