use vstd::prelude::*;

verus! {

/// The settings of a layer as the contracts see them.
pub ghost struct LayerView {
    pub log_thread_id: bool,
    pub span_separator: Seq<char>,
    pub message_separator: Seq<char>,
    pub log_target: bool,
    pub function_bracket_left: Seq<char>,
    pub function_bracket_right: Seq<char>,
    pub arguments_equality: Seq<char>,
    pub arguments_separator: Seq<char>,
    pub level_separator: Seq<char>,
    pub thread_id_prefix: Seq<char>,
    pub thread_id_suffix: Seq<char>,
    pub use_sd_journal: bool,
    pub use_level_prefix: bool,
    pub use_color: bool,
    pub origin: Option<Seq<char>>,
}

/// The rendering and routing settings of the log layer: an immutable value
/// whose builders each return a changed copy.
pub struct SystemdLayer {
    log_thread_id: bool,
    span_separator: &'static str,
    message_separator: &'static str,
    log_target: bool,
    function_bracket_left: &'static str,
    function_bracket_right: &'static str,
    arguments_equality: &'static str,
    arguments_separator: &'static str,
    level_separator: &'static str,
    thread_id_prefix: &'static str,
    thread_id_suffix: &'static str,
    use_sd_journal: bool,
    use_level_prefix: bool,
    use_color: bool,
    origin: Option<&'static str>,
}

impl View for SystemdLayer {
    type V = LayerView;

    closed spec fn view(&self) -> LayerView {
        LayerView {
            log_thread_id: self.log_thread_id,
            span_separator: self.span_separator@,
            message_separator: self.message_separator@,
            log_target: self.log_target,
            function_bracket_left: self.function_bracket_left@,
            function_bracket_right: self.function_bracket_right@,
            arguments_equality: self.arguments_equality@,
            arguments_separator: self.arguments_separator@,
            level_separator: self.level_separator@,
            thread_id_prefix: self.thread_id_prefix@,
            thread_id_suffix: self.thread_id_suffix@,
            use_sd_journal: self.use_sd_journal,
            use_level_prefix: self.use_level_prefix,
            use_color: self.use_color,
            origin: match self.origin {
                Some(o) => Some(o@),
                None => None,
            },
        }
    }
}

/// The settings of a freshly made layer.
pub open spec fn default_view() -> LayerView {
    LayerView {
        log_thread_id: false,
        span_separator: "::"@,
        message_separator: ": "@,
        log_target: false,
        function_bracket_left: "("@,
        function_bracket_right: ")"@,
        arguments_equality: ": "@,
        arguments_separator: ", "@,
        level_separator: " "@,
        thread_id_prefix: "["@,
        thread_id_suffix: "] "@,
        use_sd_journal: true,
        use_level_prefix: true,
        use_color: true,
        origin: None,
    }
}

impl SystemdLayer {
    /// A layer with the default settings.
    pub fn new() -> (r: SystemdLayer)
        ensures
            r@ == default_view(),
    {
        SystemdLayer {
            log_thread_id: false,
            span_separator: "::",
            message_separator: ": ",
            log_target: false,
            function_bracket_left: "(",
            function_bracket_right: ")",
            arguments_equality: ": ",
            arguments_separator: ", ",
            level_separator: " ",
            thread_id_prefix: "[",
            thread_id_suffix: "] ",
            use_sd_journal: true,
            use_level_prefix: true,
            use_color: true,
            origin: None,
        }
    }

    /// Sets whether the calling thread's identifier is shown (default: false).
    pub fn with_thread_ids(self, value: bool) -> (r: SystemdLayer)
        ensures
            r@ == (LayerView { log_thread_id: value, ..self@ }),
    {
        SystemdLayer { log_thread_id: value, ..self }
    }

    /// Sets the text between the names of enclosing scopes (default: `::`).
    pub fn separate_spans_with(self, value: &'static str) -> (r: SystemdLayer)
        ensures
            r@ == (LayerView { span_separator: value@, ..self@ }),
    {
        SystemdLayer { span_separator: value, ..self }
    }

    /// Sets the text before the message and before the residual fields (default: `: `).
    pub fn separate_message_with(self, value: &'static str) -> (r: SystemdLayer)
        ensures
            r@ == (LayerView { message_separator: value@, ..self@ }),
    {
        SystemdLayer { message_separator: value, ..self }
    }

    /// Sets whether the event's target leads the scope chain (default: false).
    pub fn with_target(self, value: bool) -> (r: SystemdLayer)
        ensures
            r@ == (LayerView { log_target: value, ..self@ }),
    {
        SystemdLayer { log_target: value, ..self }
    }

    /// Sets the text that opens a scope's argument list (default: `(`).
    pub fn function_bracket_left(self, value: &'static str) -> (r: SystemdLayer)
        ensures
            r@ == (LayerView { function_bracket_left: value@, ..self@ }),
    {
        SystemdLayer { function_bracket_left: value, ..self }
    }

    /// Sets the text that closes a scope's argument list (default: `)`).
    pub fn function_bracket_right(self, value: &'static str) -> (r: SystemdLayer)
        ensures
            r@ == (LayerView { function_bracket_right: value@, ..self@ }),
    {
        SystemdLayer { function_bracket_right: value, ..self }
    }

    /// Sets the text between a field's key and its value (default: `: `).
    pub fn arguments_equality(self, value: &'static str) -> (r: SystemdLayer)
        ensures
            r@ == (LayerView { arguments_equality: value@, ..self@ }),
    {
        SystemdLayer { arguments_equality: value, ..self }
    }

    /// Sets the text between two fields of an argument list (default: `, `).
    pub fn arguments_separator(self, value: &'static str) -> (r: SystemdLayer)
        ensures
            r@ == (LayerView { arguments_separator: value@, ..self@ }),
    {
        SystemdLayer { arguments_separator: value, ..self }
    }

    /// Sets the text after the level (default: a space).
    pub fn level_separator(self, value: &'static str) -> (r: SystemdLayer)
        ensures
            r@ == (LayerView { level_separator: value@, ..self@ }),
    {
        SystemdLayer { level_separator: value, ..self }
    }

    /// Sets the text before the thread identifier (default: `[`).
    pub fn thread_id_prefix(self, value: &'static str) -> (r: SystemdLayer)
        ensures
            r@ == (LayerView { thread_id_prefix: value@, ..self@ }),
    {
        SystemdLayer { thread_id_prefix: value, ..self }
    }

    /// Sets the text after the thread identifier (default: `] `).
    pub fn thread_id_suffix(self, value: &'static str) -> (r: SystemdLayer)
        ensures
            r@ == (LayerView { thread_id_suffix: value@, ..self@ }),
    {
        SystemdLayer { thread_id_suffix: value, ..self }
    }

    /// Sets whether lines go to the systemd journal instead of standard output (default: true).
    pub fn use_sd_journal(self, value: bool) -> (r: SystemdLayer)
        ensures
            r@ == (LayerView { use_sd_journal: value, ..self@ }),
    {
        SystemdLayer { use_sd_journal: value, ..self }
    }

    /// Sets whether lines on standard output start with a priority prefix such as `<5>` (default: true).
    pub fn use_level_prefix(self, value: bool) -> (r: SystemdLayer)
        ensures
            r@ == (LayerView { use_level_prefix: value, ..self@ }),
    {
        SystemdLayer { use_level_prefix: value, ..self }
    }

    /// Sets whether the level is colored by severity (default: true).
    pub fn use_color(self, value: bool) -> (r: SystemdLayer)
        ensures
            r@ == (LayerView { use_color: value, ..self@ }),
    {
        SystemdLayer { use_color: value, ..self }
    }

    /// Keeps only the events whose target is `origin` (default: all events
    /// are kept).
    pub fn exclude_other_origins(self, origin: &'static str) -> (r: SystemdLayer)
        ensures
            r@ == (LayerView { origin: Some(origin@), ..self@ }),
    {
        SystemdLayer { origin: Some(origin), ..self }
    }

    /// The current `log_thread_id` setting.
    pub fn get_log_thread_id(&self) -> (r: bool)
        ensures
            r == self@.log_thread_id,
    {
        self.log_thread_id
    }

    /// The current `span_separator` setting.
    pub fn get_span_separator(&self) -> (r: &'static str)
        ensures
            r@ == self@.span_separator,
    {
        self.span_separator
    }

    /// The current `message_separator` setting.
    pub fn get_message_separator(&self) -> (r: &'static str)
        ensures
            r@ == self@.message_separator,
    {
        self.message_separator
    }

    /// The current `log_target` setting.
    pub fn get_log_target(&self) -> (r: bool)
        ensures
            r == self@.log_target,
    {
        self.log_target
    }

    /// The current `function_bracket_left` setting.
    pub fn get_function_bracket_left(&self) -> (r: &'static str)
        ensures
            r@ == self@.function_bracket_left,
    {
        self.function_bracket_left
    }

    /// The current `function_bracket_right` setting.
    pub fn get_function_bracket_right(&self) -> (r: &'static str)
        ensures
            r@ == self@.function_bracket_right,
    {
        self.function_bracket_right
    }

    /// The current `arguments_equality` setting.
    pub fn get_arguments_equality(&self) -> (r: &'static str)
        ensures
            r@ == self@.arguments_equality,
    {
        self.arguments_equality
    }

    /// The current `arguments_separator` setting.
    pub fn get_arguments_separator(&self) -> (r: &'static str)
        ensures
            r@ == self@.arguments_separator,
    {
        self.arguments_separator
    }

    /// The current `level_separator` setting.
    pub fn get_level_separator(&self) -> (r: &'static str)
        ensures
            r@ == self@.level_separator,
    {
        self.level_separator
    }

    /// The current `thread_id_prefix` setting.
    pub fn get_thread_id_prefix(&self) -> (r: &'static str)
        ensures
            r@ == self@.thread_id_prefix,
    {
        self.thread_id_prefix
    }

    /// The current `thread_id_suffix` setting.
    pub fn get_thread_id_suffix(&self) -> (r: &'static str)
        ensures
            r@ == self@.thread_id_suffix,
    {
        self.thread_id_suffix
    }

    /// The current `use_sd_journal` setting.
    pub fn get_use_sd_journal(&self) -> (r: bool)
        ensures
            r == self@.use_sd_journal,
    {
        self.use_sd_journal
    }

    /// The current `use_level_prefix` setting.
    pub fn get_use_level_prefix(&self) -> (r: bool)
        ensures
            r == self@.use_level_prefix,
    {
        self.use_level_prefix
    }

    /// The current `use_color` setting.
    pub fn get_use_color(&self) -> (r: bool)
        ensures
            r == self@.use_color,
    {
        self.use_color
    }

    /// The origin that events must come from, if one is set.
    pub fn get_origin(&self) -> (r: Option<&'static str>)
        ensures
            r.is_some() == self@.origin.is_some(),
            r.is_some() ==> r.unwrap()@ == self@.origin.unwrap(),
    {
        self.origin
    }
}

} // verus!
