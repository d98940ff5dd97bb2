use crate::log_level::{Color, LogLevel, Style};
use crate::loggr_config::LoggrConfig;
use crate::terminal::{paint, painted};
use crate::time::{format_instant, formatted_instant, now, UtcInstant};
use crate::types::{
    final_line, last_replacement, option_views, ArgHookCallback, LogError, LogHooks,
    PostHookCallback, PostHookCallbackParams, PreHookCallback,
};
use crate::top;
use vstd::prelude::*;
use vstd::utf8::{encode_utf8, is_ascii_chars, is_ascii_chars_encode_utf8};

verus! {

/// The names of `levels`, in order.
pub open spec fn level_names(levels: Seq<LogLevel>) -> Seq<Seq<char>> {
    levels.map_values(|l: LogLevel| l.name@)
}

/// The first position of `name` in `names`, or -1 where it does not occur.
pub open spec fn first_index(names: Seq<Seq<char>>, name: Seq<char>) -> int
    decreases names.len(),
{
    if names.len() == 0 {
        -1
    } else {
        let p = first_index(names.drop_last(), name);
        if p >= 0 {
            p
        } else if names.last() == name {
            names.len() - 1
        } else {
            -1
        }
    }
}

/// The length of `s` in bytes, UTF-8 encoded.
pub open spec fn byte_len(s: Seq<char>) -> nat {
    encode_utf8(s).len()
}

/// The byte length of the longest name, 0 for no names.
pub open spec fn max_name_len(names: Seq<Seq<char>>) -> nat
    decreases names.len(),
{
    if names.len() == 0 {
        0
    } else {
        let m = max_name_len(names.drop_last());
        if byte_len(names.last()) > m {
            byte_len(names.last())
        } else {
            m
        }
    }
}

pub open spec fn spaces(n: nat) -> Seq<char> {
    Seq::new(n, |i: int| ' ')
}

/// `text` centred with spaces in a field of `width` bytes, the odd space on
/// the right; text at least as long is left as it is.
pub open spec fn centred(text: Seq<char>, width: nat) -> Seq<char> {
    if byte_len(text) < width {
        let gap = (width - byte_len(text)) as nat;
        spaces(gap / 2) + text + spaces((gap - gap / 2) as nat)
    } else {
        text
    }
}

/// `stored` holds `names` and `styles` in order, each ranked by its position.
pub open spec fn installed(stored: Seq<LogLevel>, names: Seq<Seq<char>>, styles: Seq<Style>) -> bool {
    &&& stored.len() == names.len()
    &&& stored.len() == styles.len()
    &&& forall|i: int|
        0 <= i < stored.len() ==> {
            &&& #[trigger] stored[i].name@ == names[i]
            &&& stored[i].style == styles[i]
            &&& stored[i].position == Some(i as usize)
        }
}

pub open spec fn level_styles(levels: Seq<LogLevel>) -> Seq<Style> {
    levels.map_values(|l: LogLevel| l.style)
}

/// Room for the widest name and two spaces in a `usize`.
pub open spec fn names_fit(levels: Seq<LogLevel>) -> bool {
    max_name_len(level_names(levels)) + 2 <= usize::MAX
}

pub open spec fn default_level_names() -> Seq<Seq<char>> {
    seq!["fatal"@, "error"@, "warn"@, "trace"@, "init"@, "info"@, "verbose"@, "debug"@]
}

pub open spec fn default_level_styles() -> Seq<Style> {
    seq![
        Style { fg: Color::Red, bg: Color::Black },
        Style { fg: Color::Black, bg: Color::Red },
        Style { fg: Color::Black, bg: Color::Yellow },
        Style { fg: Color::Green, bg: Color::Black },
        Style { fg: Color::Black, bg: Color::Blue },
        Style { fg: Color::Black, bg: Color::Green },
        Style { fg: Color::Black, bg: Color::Cyan },
        Style { fg: Color::Magenta, bg: Color::Black },
    ]
}

pub open spec fn default_pattern() -> Seq<char> {
    "%d/%m %H:%M:%S"@
}

pub open spec fn shard_style() -> Style {
    Style { fg: Color::Black, bg: Color::Yellow }
}

pub open spec fn timestamp_style() -> Style {
    Style { fg: Color::Black, bg: Color::White }
}

/// `plain` in `style` where colour is on, else as it is.
pub open spec fn styled(color: bool, plain: Seq<char>, style: Style) -> Seq<char> {
    if color {
        painted(plain, style.fg.spec_code(), style.bg.spec_code())
    } else {
        plain
    }
}

/// The options to apply, `None` standing for all defaults.
pub open spec fn or_default(options: Option<LoggrConfig>) -> LoggrConfig {
    match options {
        Some(o) => o,
        None => LoggrConfig {
            timestamp_format: None,
            shard: None,
            shard_length: None,
            level: None,
            levels: None,
            color_enabled: true,
        },
    }
}

/// The names of the level set that `o` puts in effect.
pub open spec fn given_names(o: LoggrConfig) -> Seq<Seq<char>> {
    match o.levels {
        Some(ls) => level_names(ls@),
        None => default_level_names(),
    }
}

/// `o` names a threshold that its level set lacks.
pub open spec fn unknown_threshold(o: LoggrConfig) -> bool {
    o.level matches Some(n) && !given_names(o).contains(n@)
}

pub open spec fn option_view(o: Option<String>) -> Option<Seq<char>> {
    match o {
        Some(s) => Some(s@),
        None => None,
    }
}

proof fn lemma_first_index(names: Seq<Seq<char>>, name: Seq<char>)
    ensures
        -1 <= first_index(names, name) < names.len(),
        first_index(names, name) >= 0 ==> names[first_index(names, name)] == name,
        forall|j: int| 0 <= j < first_index(names, name) ==> names[j] != name,
        first_index(names, name) < 0 ==> forall|j: int| 0 <= j < names.len() ==> names[j] != name,
    decreases names.len(),
{
    if names.len() > 0 {
        let init = names.drop_last();
        lemma_first_index(init, name);
        assert forall|j: int| 0 <= j < init.len() implies init[j] == names[j] by {}
    }
}

/// `name` is found first at `i` exactly where it stands at `i` and nowhere before.
proof fn lemma_first_at(names: Seq<Seq<char>>, name: Seq<char>, i: int)
    requires
        0 <= i < names.len(),
        names[i] == name,
        forall|j: int| 0 <= j < i ==> names[j] != name,
    ensures
        first_index(names, name) == i,
{
    lemma_first_index(names, name);
}

proof fn lemma_contains_first(names: Seq<Seq<char>>, name: Seq<char>)
    ensures
        names.contains(name) <==> first_index(names, name) >= 0,
{
    lemma_first_index(names, name);
    if names.contains(name) {
        let j = choose|j: int| 0 <= j < names.len() && names[j] == name;
        assert(names[j] == name);
    }
}

/// Names that are each at most `k` bytes long have a longest length of at most `k`.
pub proof fn lemma_max_name_len_bound(names: Seq<Seq<char>>, k: nat)
    requires
        forall|i: int| 0 <= i < names.len() ==> byte_len(names[i]) <= k,
    ensures
        max_name_len(names) <= k,
    decreases names.len(),
{
    if names.len() > 0 {
        lemma_max_name_len_bound(names.drop_last(), k);
    }
}

/// The encoding of a concatenation is the concatenation of the encodings.
proof fn lemma_encode_concat(a: Seq<char>, b: Seq<char>)
    ensures
        encode_utf8(a + b) == encode_utf8(a) + encode_utf8(b),
    decreases a.len(),
{
    if a.len() == 0 {
        assert(a + b =~= b);
        assert(encode_utf8(a) + encode_utf8(b) =~= encode_utf8(b));
    } else {
        assert((a + b).drop_first() =~= a.drop_first() + b);
        assert((a + b)[0] == a[0]);
        lemma_encode_concat(a.drop_first(), b);
        assert(encode_utf8(a + b) =~= encode_utf8(a) + encode_utf8(b));
    }
}

/// Spaces take one byte each.
proof fn lemma_spaces_bytes(n: nat)
    ensures
        byte_len(spaces(n)) == n,
{
    assert(is_ascii_chars(spaces(n)));
    is_ascii_chars_encode_utf8(spaces(n));
}

/// No character takes more than four bytes.
proof fn lemma_byte_len_at_most_four_per_char(s: Seq<char>)
    ensures
        byte_len(s) <= 4 * s.len(),
    decreases s.len(),
{
    if s.len() > 0 {
        lemma_byte_len_at_most_four_per_char(s.drop_first());
    }
}

/// Installing one more level keeps the installed prefix.
proof fn lemma_installed_push(
    prev: Seq<LogLevel>,
    l: LogLevel,
    names: Seq<Seq<char>>,
    styles: Seq<Style>,
    i: int,
)
    requires
        0 <= i < names.len(),
        i < styles.len(),
        installed(prev, names.subrange(0, i), styles.subrange(0, i)),
        l.name@ == names[i],
        l.style == styles[i],
        l.position == Some(i as usize),
    ensures
        installed(prev.push(l), names.subrange(0, i + 1), styles.subrange(0, i + 1)),
{
    let r = prev.push(l);
    let ns = names.subrange(0, i + 1);
    let ss = styles.subrange(0, i + 1);
    assert forall|k: int| 0 <= k < r.len() implies {
        &&& #[trigger] r[k].name@ == ns[k]
        &&& r[k].style == ss[k]
        &&& r[k].position == Some(k as usize)
    } by {
        if k < i {
            assert(r[k] == prev[k]);
            assert(prev[k].name@ == names.subrange(0, i)[k]);
            assert(prev[k].style == styles.subrange(0, i)[k]);
        } else {
            assert(r[k] == l);
        }
    }
    assert(prev.len() == i);
    assert(r.len() == ns.len());
    assert(r.len() == ss.len());
}

/// Appends `n` spaces to `s`.
fn push_spaces(s: &mut String, n: usize)
    ensures
        final(s)@ == old(s)@ + spaces(n as nat),
{
    let mut i: usize = 0;
    while i < n
        invariant
            i <= n,
            s@ == old(s)@ + spaces(i as nat),
        decreases n - i,
    {
        proof {
            reveal_strlit(" ");
        }
        s.append(" ");
        assert(s@ =~= old(s)@ + spaces((i + 1) as nat));
        i = i + 1;
    }
}

/// The position of the first level in `levels` named `name`.
fn find_in(levels: &Vec<LogLevel>, name: &String) -> (r: Option<usize>)
    ensures
        match r {
            Some(i) => i < levels@.len() && i as int == first_index(level_names(levels@), name@)
                && level_names(levels@).contains(name@),
            None => !level_names(levels@).contains(name@),
        },
{
    let mut i: usize = 0;
    while i < levels.len()
        invariant
            i <= levels@.len(),
            forall|j: int| 0 <= j < i ==> level_names(levels@)[j] != name@,
        decreases levels@.len() - i,
    {
        if levels[i].name == *name {
            proof {
                lemma_first_at(level_names(levels@), name@, i as int);
                assert(level_names(levels@)[i as int] == name@);
            }
            return Some(i);
        }
        i = i + 1;
    }
    proof {
        lemma_contains_first(level_names(levels@), name@);
        lemma_first_index(level_names(levels@), name@);
    }
    None
}

/// Colours `plain` with `style` where `color` is on.
fn styled_field(color: bool, plain: String, style: Style) -> (r: String)
    ensures
        r@ == styled(color, plain@, style),
{
    if color {
        paint(plain.as_str(), style.fg.code(), style.bg.code())
    } else {
        plain
    }
}

impl Default for CatLoggr {
    fn default() -> (r: Self)
        ensures
            r.is_fresh(),
    {
        CatLoggr {
            levels: Vec::new(),
            max_length: 2,
            timestamp_format: String::from_str("%d/%m %H:%M:%S"),
            shard: None,
            shard_length: None,
            hooks: LogHooks::new(),
            level_name: None,
            color_enabled: true,
        }
    }
}

/// A logger: its levels and threshold, how it renders, and its hooks.
pub struct CatLoggr {
    levels: Vec<LogLevel>,
    max_length: usize,
    timestamp_format: String,
    shard: Option<String>,
    shard_length: Option<usize>,
    hooks: LogHooks,
    level_name: Option<String>,
    color_enabled: bool,
}

impl CatLoggr {
    /// The registered levels, high priority first.
    pub closed spec fn levels_view(&self) -> Seq<LogLevel> {
        self.levels@
    }

    /// The width the level field is centred in.
    pub closed spec fn max_width(&self) -> nat {
        self.max_length as nat
    }

    pub closed spec fn timestamp_pattern(&self) -> Seq<char> {
        self.timestamp_format@
    }

    pub closed spec fn shard_label(&self) -> Option<Seq<char>> {
        option_view(self.shard)
    }

    pub closed spec fn shard_width(&self) -> Option<nat> {
        match self.shard_length {
            Some(w) => Some(w as nat),
            None => None,
        }
    }

    /// The name of the active threshold level.
    pub closed spec fn threshold(&self) -> Option<Seq<char>> {
        option_view(self.level_name)
    }

    pub closed spec fn color(&self) -> bool {
        self.color_enabled
    }

    pub closed spec fn post_hooks(&self) -> Seq<Box<dyn PostHookCallback>> {
        self.hooks.post@
    }

    pub closed spec fn pre_hooks(&self) -> Seq<Box<dyn PreHookCallback>> {
        self.hooks.pre@
    }

    pub closed spec fn arg_hooks(&self) -> Seq<Box<dyn ArgHookCallback>> {
        self.hooks.arg@
    }

    pub open spec fn post_hook_count(&self) -> nat {
        self.post_hooks().len()
    }

    /// The three hook lists are as in `o`.
    pub open spec fn same_hooks(&self, o: &CatLoggr) -> bool {
        &&& self.pre_hooks() == o.pre_hooks()
        &&& self.arg_hooks() == o.arg_hooks()
        &&& self.post_hooks() == o.post_hooks()
    }

    /// Every level is ranked by its position, the level field is two wider
    /// than the longest name, and a shard label comes with a width.
    pub open spec fn wf(&self) -> bool {
        &&& forall|i: int|
            0 <= i < self.levels_view().len() ==> #[trigger] self.levels_view()[i].position == Some(
                i as usize,
            )
        &&& self.max_width() == max_name_len(self.names()) + 2
        &&& self.shard_label() is Some ==> self.shard_width() is Some
    }

    pub open spec fn names(&self) -> Seq<Seq<char>> {
        level_names(self.levels_view())
    }

    /// The rank of `name`: the position of its first registration, or -1.
    pub open spec fn rank(&self, name: Seq<char>) -> int {
        first_index(self.names(), name)
    }

    /// The lookup by name: each name maps to its first registration.
    pub open spec fn level_map(&self) -> Map<Seq<char>, LogLevel> {
        Map::new(
            |n: Seq<char>| self.names().contains(n),
            |n: Seq<char>| self.levels_view()[first_index(self.names(), n)],
        )
    }

    /// Whether a call at `level` is emitted, or the unknown name that stops it.
    pub open spec fn decision(&self, level: Seq<char>) -> Result<bool, Seq<char>> {
        if !self.names().contains(level) {
            Err(level)
        } else {
            match self.threshold() {
                None => Err(Seq::empty()),
                Some(t) => if !self.names().contains(t) {
                    Err(t)
                } else {
                    Ok(self.rank(level) <= self.rank(t))
                },
            }
        }
    }

    /// Everything but the hooks is as in `o`.
    pub open spec fn same_settings(&self, o: &CatLoggr) -> bool {
        &&& self.levels_view() == o.levels_view()
        &&& self.max_width() == o.max_width()
        &&& self.timestamp_pattern() == o.timestamp_pattern()
        &&& self.shard_label() == o.shard_label()
        &&& self.shard_width() == o.shard_width()
        &&& self.threshold() == o.threshold()
        &&& self.color() == o.color()
    }

    /// The shard label centred in its width, or nothing.
    pub open spec fn shard_field(&self) -> Seq<char> {
        match (self.shard_label(), self.shard_width()) {
            (Some(s), Some(w)) => centred(s, w),
            _ => Seq::empty(),
        }
    }

    /// The line for `text` at `level` with timestamp `stamp`, before hooks.
    pub open spec fn baseline(&self, text: Seq<char>, level: Seq<char>, stamp: Seq<char>) -> Seq<char> {
        styled(self.color(), self.shard_field(), shard_style()) + styled(
            self.color(),
            stamp,
            timestamp_style(),
        ) + styled(self.color(), centred(level, self.max_width()), self.level_map()[level].style)
            + seq![' '] + text
    }

    /// Center aligns text
    pub fn centre_pad(text: &String, length: usize) -> (r: String)
        ensures
            r@ == centred(text@, length as nat),
    {
        let view = text.as_str();
        let n = view.as_bytes().len();
        assert(view@ == text@);
        if n < length {
            let gap = length - n;
            let before = gap / 2;
            let after = gap - before;
            let mut out = String::new();
            push_spaces(&mut out, before);
            out.append(text.as_str());
            push_spaces(&mut out, after);
            out
        } else {
            text.clone()
        }
    }


    fn get_default_levels() -> (r: Vec<LogLevel>)
        ensures
            level_names(r@) == default_level_names(),
            level_styles(r@) == default_level_styles(),
            forall|i: int| 0 <= i < r@.len() ==> #[trigger] r@[i].position is None,
            names_fit(r@),
    {
        let r = vec![
            LogLevel::new(String::from_str("fatal"), Style::new(Color::Red, Color::Black)),
            LogLevel::new(String::from_str("error"), Style::new(Color::Black, Color::Red)),
            LogLevel::new(String::from_str("warn"), Style::new(Color::Black, Color::Yellow)),
            LogLevel::new(String::from_str("trace"), Style::new(Color::Green, Color::Black)),
            LogLevel::new(String::from_str("init"), Style::new(Color::Black, Color::Blue)),
            LogLevel::new(String::from_str("info"), Style::new(Color::Black, Color::Green)),
            LogLevel::new(String::from_str("verbose"), Style::new(Color::Black, Color::Cyan)),
            LogLevel::new(String::from_str("debug"), Style::new(Color::Magenta, Color::Black)),
        ];
        proof {
            reveal_strlit("fatal");
            reveal_strlit("error");
            reveal_strlit("warn");
            reveal_strlit("trace");
            reveal_strlit("init");
            reveal_strlit("info");
            reveal_strlit("verbose");
            reveal_strlit("debug");
            assert(level_names(r@) =~= default_level_names());
            assert(level_styles(r@) =~= default_level_styles());
            assert forall|i: int| 0 <= i < level_names(r@).len() implies byte_len(
                level_names(r@)[i],
            ) <= 28 by {
                lemma_byte_len_at_most_four_per_char(level_names(r@)[i]);
            }
            lemma_max_name_len_bound(level_names(r@), 28);
        }
        r
    }

    /// Overwrites the levels with `levels`, from high to low priority: each
    /// is ranked by its position, and a name given twice resolves to its
    /// first registration.
    pub fn set_levels(&mut self, levels: Vec<LogLevel>)
        requires
            old(self).wf(),
            names_fit(levels@),
        ensures
            final(self).wf(),
            installed(final(self).levels_view(), level_names(levels@), level_styles(levels@)),
            final(self).max_width() == max_name_len(level_names(levels@)) + 2,
            final(self).timestamp_pattern() == old(self).timestamp_pattern(),
            final(self).shard_label() == old(self).shard_label(),
            final(self).shard_width() == old(self).shard_width(),
            final(self).threshold() == old(self).threshold(),
            final(self).color() == old(self).color(),
            final(self).same_hooks(old(self)),
    {
        let ghost names = level_names(levels@);
        let mut ranked: Vec<LogLevel> = Vec::new();
        let mut max: usize = 0;
        let mut i: usize = 0;
        while i < levels.len()
            invariant
                i <= levels@.len(),
                names == level_names(levels@),
                installed(ranked@, names.subrange(0, i as int), level_styles(levels@).subrange(0, i as int)),
                max as nat == max_name_len(names.subrange(0, i as int)),
            decreases levels@.len() - i,
        {
            let mut level = levels[i].clone();
            level.position = Some(i);
            let view = level.name.as_str();
            let n = view.as_bytes().len();
            assert(view@ == level.name@);
            proof {
                assert(names.subrange(0, i + 1).drop_last() =~= names.subrange(0, i as int));
            }
            if n > max {
                max = n;
            }
            let ghost prev = ranked@;
            let ghost added = level;
            assert(added.name@ == names[i as int]);
            assert(added.style == level_styles(levels@)[i as int]);
            assert(added.position == Some(i));
            ranked.push(level);
            proof {
                assert(ranked@ == prev.push(added));
                lemma_installed_push(prev, added, names, level_styles(levels@), i as int);
            }
            i = i + 1;
        }
        proof {
            assert(names.subrange(0, levels@.len() as int) =~= names);
            assert(level_styles(levels@).subrange(0, levels@.len() as int) =~= level_styles(levels@));
            assert(level_names(ranked@) =~= names);
        }
        self.levels = ranked;
        self.max_length = max + 2;
        proof {
            assert forall|k: int| 0 <= k < self.levels_view().len() implies
                #[trigger] self.levels_view()[k].position == Some(k as usize) by {
                assert(self.levels@[k].name@ == names[k]);
            }
        }
    }

    /// Sets the threshold: only levels at or above it are emitted.
    pub fn set_level(&mut self, level: &str) -> (r: Result<(), LogError>)
        requires
            old(self).wf(),
        ensures
            final(self).wf(),
            final(self).levels_view() == old(self).levels_view(),
            final(self).max_width() == old(self).max_width(),
            final(self).timestamp_pattern() == old(self).timestamp_pattern(),
            final(self).shard_label() == old(self).shard_label(),
            final(self).shard_width() == old(self).shard_width(),
            final(self).color() == old(self).color(),
            final(self).same_hooks(old(self)),
            match r {
                Ok(()) => old(self).names().contains(level@) && final(self).threshold() == Some(level@),
                Err(e) => !old(self).names().contains(level@) && (e matches LogError::UnknownLevel(n) && n@ == level@)
                    && final(self).threshold() == old(self).threshold(),
            },
    {
        let name = String::from_str(level);
        match self.find(&name) {
            None => Err(LogError::UnknownLevel(name)),
            Some(_) => {
                self.level_name = Some(name);
                Ok(())
            },
        }
    }


    /// A shard label would be left without a width after applying `o`.
    pub open spec fn lacks_shard_width(&self, o: LoggrConfig) -> bool {
        (o.shard is Some || self.shard_label() is Some) && o.shard_length is None
            && self.shard_width() is None
    }

    /// What applying `o` leaves, given what was there before (`old`).
    pub open spec fn configured_from(&self, old: &CatLoggr, o: LoggrConfig) -> bool {
        &&& self.wf()
        &&& self.timestamp_pattern() == match o.timestamp_format {
            Some(t) => t@,
            None => old.timestamp_pattern(),
        }
        &&& self.shard_label() == match o.shard {
            Some(l) => Some(l@),
            None => old.shard_label(),
        }
        &&& self.shard_width() == match o.shard_length {
            Some(w) => Some(w as nat),
            None => old.shard_width(),
        }
        &&& match o.levels {
            Some(ls) => installed(self.levels_view(), level_names(ls@), level_styles(ls@)),
            None => installed(self.levels_view(), default_level_names(), default_level_styles()),
        }
        &&& self.threshold() == match o.level {
            Some(l) => Some(l@),
            None => if self.names().len() > 0 {
                Some(self.names().last())
            } else {
                None
            },
        }
        &&& self.color() == o.color_enabled
        &&& self.same_hooks(old)
    }

    /// Configures the logger. A field of `options` left `None` keeps its
    /// value, but for the levels, which fall back to the default set; the
    /// threshold falls back to the last level. A shard label without a
    /// width is refused, and so is a threshold that the level set in effect
    /// lacks; then nothing is changed.
    pub fn config(&mut self, options: Option<LoggrConfig>) -> (r: Result<(), LogError>)
        requires
            old(self).wf(),
            or_default(options).levels matches Some(ls) ==> names_fit(ls@),
        ensures
            match r {
                Ok(()) => !old(self).lacks_shard_width(or_default(options)) && !unknown_threshold(
                    or_default(options),
                ) && final(self).configured_from(old(self), or_default(options)),
                Err(e) => *final(self) == *old(self) && if old(self).lacks_shard_width(
                    or_default(options),
                ) {
                    e is MissingShardWidth
                } else {
                    unknown_threshold(or_default(options)) && (e matches LogError::UnknownLevel(m)
                        && m@ == or_default(options).level->Some_0@)
                },
            },
    {
        let options = match options {
            Some(o) => o,
            None => LoggrConfig::default(),
        };
        if (options.shard.is_some() || self.shard.is_some()) && options.shard_length.is_none()
            && self.shard_length.is_none() {
            return Err(LogError::MissingShardWidth);
        }
        let LoggrConfig { timestamp_format, shard, shard_length, level, levels, color_enabled } =
            options;
        let levels = match levels {
            Some(ls) => ls,
            None => Self::get_default_levels(),
        };
        match &level {
            Some(l) => {
                if find_in(&levels, l).is_none() {
                    return Err(LogError::UnknownLevel(l.clone()));
                }
            },
            None => {},
        }
        match timestamp_format {
            Some(t) => {
                self.timestamp_format = t;
            },
            None => {},
        }
        if shard.is_some() {
            self.shard = shard;
        }
        if shard_length.is_some() {
            self.shard_length = shard_length;
        }
        self.set_levels(levels);
        match level {
            Some(l) => {
                self.level_name = Some(l);
            },
            None => {
                let last = top(&mut self.levels);
                match last {
                    Some(l) => {
                        self.level_name = Some(l.name);
                    },
                    None => {
                        self.level_name = None;
                    },
                }
            },
        }
        self.color_enabled = color_enabled;
        Ok(())
    }

    /// Creates a logger configured with `options`, refused as `config`
    /// refuses it.
    pub fn new(options: Option<LoggrConfig>) -> (r: Result<CatLoggr, LogError>)
        requires
            or_default(options).levels matches Some(ls) ==> names_fit(ls@),
        ensures
            match r {
                Ok(l) => {
                    let o = or_default(options);
                    &&& !(o.shard is Some && o.shard_length is None)
                    &&& !unknown_threshold(o)
                    &&& exists|f: CatLoggr| f.is_fresh() && l.configured_from(&f, o)
                },
                Err(e) => {
                    let o = or_default(options);
                    if o.shard is Some && o.shard_length is None {
                        e is MissingShardWidth
                    } else {
                        unknown_threshold(o) && (e matches LogError::UnknownLevel(m) && m@
                            == o.level->Some_0@)
                    }
                },
            },
    {
        let mut logger = Self::default();
        let ghost fresh = logger;
        match logger.config(options) {
            Ok(()) => Ok(logger),
            Err(e) => Err(e),
        }
    }

    /// A logger before any configuration: no levels, the default timestamp
    /// pattern, no shard, colour on, no hooks.
    pub open spec fn is_fresh(&self) -> bool {
        &&& self.wf()
        &&& self.levels_view().len() == 0
        &&& self.timestamp_pattern() == default_pattern()
        &&& self.shard_label() is None
        &&& self.shard_width() is None
        &&& self.threshold() is None
        &&& self.color()
        &&& self.post_hooks().len() == 0
        &&& self.pre_hooks().len() == 0
        &&& self.arg_hooks().len() == 0
    }

    /// Adds a hook reserved for the start of a log call.
    pub fn add_pre_hook(&mut self, func: Box<dyn PreHookCallback>)
        ensures
            final(self).same_settings(old(self)),
            final(self).wf() == old(self).wf(),
            final(self).pre_hooks() == old(self).pre_hooks().push(func),
            final(self).arg_hooks() == old(self).arg_hooks(),
            final(self).post_hooks() == old(self).post_hooks(),
    {
        self.hooks.pre.push(func);
    }

    /// Adds a hook reserved for formatting the logged arguments.
    pub fn add_arg_hook(&mut self, func: Box<dyn ArgHookCallback>)
        ensures
            final(self).same_settings(old(self)),
            final(self).wf() == old(self).wf(),
            final(self).pre_hooks() == old(self).pre_hooks(),
            final(self).arg_hooks() == old(self).arg_hooks().push(func),
            final(self).post_hooks() == old(self).post_hooks(),
    {
        self.hooks.arg.push(func);
    }

    /// Adds a post hook, run after rendering; the last one that returns a
    /// string replaces the whole line.
    pub fn add_post_hook(&mut self, func: Box<dyn PostHookCallback>)
        ensures
            final(self).same_settings(old(self)),
            final(self).wf() == old(self).wf(),
            final(self).pre_hooks() == old(self).pre_hooks(),
            final(self).arg_hooks() == old(self).arg_hooks(),
            final(self).post_hooks() == old(self).post_hooks().push(func),
    {
        self.hooks.post.push(func);
    }

    /// The level registered first under `name`.
    pub fn resolve(&self, name: &str) -> (r: Result<LogLevel, LogError>)
        ensures
            match r {
                Ok(l) => self.names().contains(name@) && l == self.level_map()[name@],
                Err(e) => !self.names().contains(name@) && (e matches LogError::UnknownLevel(n)
                    && n@ == name@),
            },
    {
        let key = String::from_str(name);
        match self.find(&key) {
            Some(i) => Ok(self.levels[i].clone()),
            None => Err(LogError::UnknownLevel(key)),
        }
    }

    /// The active threshold level.
    pub fn get_level(&self) -> (r: Result<LogLevel, LogError>)
        ensures
            match r {
                Ok(l) => self.threshold() matches Some(t) && self.names().contains(t) && l
                    == self.level_map()[t],
                Err(e) => e matches LogError::UnknownLevel(n) && match self.threshold() {
                    Some(t) => !self.names().contains(t) && n@ == t,
                    None => n@ == Seq::<char>::empty(),
                },
            },
    {
        match &self.level_name {
            Some(t) => self.resolve(t.as_str()),
            None => Err(LogError::UnknownLevel(String::new())),
        }
    }

    /// Whether a call at `level` is emitted: it is when its rank is at most
    /// the threshold's.
    pub fn should_emit(&self, level: &str) -> (r: Result<bool, LogError>)
        ensures
            match r {
                Ok(b) => self.decision(level@) == Ok::<bool, Seq<char>>(b),
                Err(e) => e matches LogError::UnknownLevel(n) && self.decision(level@) == Err::<
                    bool,
                    Seq<char>,
                >(n@),
            },
    {
        let key = String::from_str(level);
        match self.find(&key) {
            None => Err(LogError::UnknownLevel(key)),
            Some(i) => match &self.level_name {
                None => Err(LogError::UnknownLevel(String::new())),
                Some(t) => match self.find(t) {
                    None => Err(LogError::UnknownLevel(t.clone())),
                    Some(j) => Ok(i <= j),
                },
            },
        }
    }


    /// The instant `date` written with the logger's timestamp pattern.
    pub fn get_timestamp(&self, date: UtcInstant) -> (r: Option<String>)
        ensures
            match r {
                Some(t) => formatted_instant(date.secs as int, date.nanos as int, self.timestamp_pattern())
                    == Some(t@),
                None => formatted_instant(
                    date.secs as int,
                    date.nanos as int,
                    self.timestamp_pattern(),
                ) is None,
            },
    {
        format_instant(date.secs, date.nanos, self.timestamp_format.as_str())
    }

    /// What a post hook is handed for a call at `level` with `text` at
    /// `date`, whose unstyled timestamp is `stamp`.
    pub fn post_hook_params(&self, text: &str, level: &str, date: UtcInstant, stamp: &String) -> (p:
        PostHookCallbackParams)
        ensures
            p.level@ == level@,
            p.text@ == text@,
            p.date == date,
            p.timestamp@ == stamp@,
            option_view(p.shard) == self.shard_label(),
    {
        let shard = match &self.shard {
            Some(l) => Some(l.clone()),
            None => None,
        };
        PostHookCallbackParams {
            level: String::from_str(level),
            text: String::from_str(text),
            date,
            timestamp: stamp.clone(),
            shard,
        }
    }

    /// Runs the post hooks in order, each once on a fresh copy of
    /// `post_hook_params(text, level, date, stamp)`, and collects their
    /// answers.
    fn run_post_hooks(&self, text: &str, level: &str, date: UtcInstant, stamp: &String) -> (r: Vec<
        Option<String>,
    >)
        ensures
            r@.len() == self.post_hook_count(),
    {
        let mut answers: Vec<Option<String>> = Vec::new();
        let mut i: usize = 0;
        while i < self.hooks.post.len()
            invariant
                i <= self.hooks.post@.len(),
                answers@.len() == i,
            decreases self.hooks.post@.len() - i,
        {
            let params = self.post_hook_params(text, level, date, stamp);
            let answer = self.hooks.post[i].call(params);
            answers.push(answer);
            i = i + 1;
        }
        answers
    }

    /// The line for `text` at `level` at instant `date`: `None` where the
    /// level is below the threshold, else the rendered line after the post
    /// hooks, without its newline.
    pub fn render(&self, text: &str, level: &str, date: UtcInstant) -> (r: Result<
        Option<String>,
        LogError,
    >)
        requires
            self.wf(),
        ensures
            match self.decision(level@) {
                Err(n) => r matches Err(LogError::UnknownLevel(m)) && m@ == n,
                Ok(false) => r matches Ok(None),
                Ok(true) => match formatted_instant(
                    date.secs as int,
                    date.nanos as int,
                    self.timestamp_pattern(),
                ) {
                    None => r matches Err(LogError::BadTimestamp),
                    Some(stamp) => r matches Ok(Some(line)) && exists|
                        answers: Seq<Option<Seq<char>>>,
                    |
                        answers.len() == self.post_hook_count() && line@ == last_replacement(
                            self.baseline(text@, level@, stamp),
                            answers,
                        ),
                },
            },
    {
        match self.should_emit(level) {
            Err(e) => {
                return Err(e);
            },
            Ok(false) => {
                return Ok(None);
            },
            Ok(true) => {},
        }
        let key = String::from_str(level);
        let idx = match self.find(&key) {
            Some(i) => i,
            None => {
                return Err(LogError::UnknownLevel(key));
            },
        };
        let stamp = match self.get_timestamp(date) {
            Some(t) => t,
            None => {
                return Err(LogError::BadTimestamp);
            },
        };
        let shard_text = match (&self.shard, self.shard_length) {
            (Some(l), Some(w)) => Self::centre_pad(l, w),
            _ => String::new(),
        };
        let color = self.color_enabled;
        let mut line = styled_field(color, shard_text, Style::new(Color::Black, Color::Yellow));
        let stamp_field = styled_field(color, stamp.clone(), Style::new(Color::Black, Color::White));
        line.append(stamp_field.as_str());
        let level_field = styled_field(
            color,
            Self::centre_pad(&self.levels[idx].name, self.max_length),
            self.levels[idx].style,
        );
        line.append(level_field.as_str());
        proof {
            reveal_strlit(" ");
        }
        line.append(" ");
        line.append(text);
        let answers = self.run_post_hooks(text, level, date, &stamp);
        let ghost baseline = line@;
        let out = final_line(line, &answers);
        proof {
            lemma_first_index(self.names(), level@);
            assert(baseline == self.baseline(text@, level@, stamp@));
            assert(option_views(answers@).len() == self.post_hook_count());
        }
        Ok(Some(out))
    }

    /// Decides and renders a call at `level` at the current instant: the
    /// line to write, or `None` where the level is below the threshold.
    pub fn log(&self, text: &str, level: &str) -> (r: Result<Option<String>, LogError>)
        requires
            self.wf(),
        ensures
            match self.decision(level@) {
                Err(n) => r matches Err(LogError::UnknownLevel(m)) && m@ == n,
                Ok(false) => r matches Ok(None),
                Ok(true) => match r {
                    Ok(Some(line)) => exists|
                        secs: int,
                        nanos: int,
                        stamp: Seq<char>,
                        answers: Seq<Option<Seq<char>>>,
                    |
                        formatted_instant(secs, nanos, self.timestamp_pattern()) == Some(stamp)
                            && answers.len() == self.post_hook_count() && line@ == last_replacement(
                            self.baseline(text@, level@, stamp),
                            answers,
                        ),
                    Ok(None) => false,
                    Err(e) => e is BadTimestamp && exists|secs: int, nanos: int|
                        formatted_instant(secs, nanos, self.timestamp_pattern()) is None,
                },
            },
    {
        let date = now();
        self.render(text, level, date)
    }

    /// The position of the first level named `name`.
    fn find(&self, name: &String) -> (r: Option<usize>)
        ensures
            match r {
                Some(i) => i < self.names().len() && i as int == self.rank(name@)
                    && self.names().contains(name@),
                None => !self.names().contains(name@),
            },
    {
        find_in(&self.levels, name)
    }
}


/// A registered level is ranked by its place in the order: a name that first
/// occurs at position `i` has rank `i`, and the level the lookup gives for it
/// carries that rank.
pub proof fn rank_is_first_position(l: &CatLoggr, i: int)
    requires
        l.wf(),
        0 <= i < l.names().len(),
        forall|j: int| 0 <= j < i ==> l.names()[j] != l.names()[i],
    ensures
        l.rank(l.names()[i]) == i,
        l.level_map().dom().contains(l.names()[i]),
        l.level_map()[l.names()[i]].position == Some(i as usize),
{
    lemma_first_at(l.names(), l.names()[i], i);
    assert(l.names().contains(l.names()[i]));
}

/// After levels are installed, a name given more than once keeps the
/// style of its first occurrence.
pub proof fn first_occurrence_wins(l: &CatLoggr, levels: Seq<LogLevel>, i: int, j: int)
    requires
        installed(l.levels_view(), level_names(levels), level_styles(levels)),
        0 <= i < j < levels.len(),
        levels[i].name@ == levels[j].name@,
        forall|k: int| 0 <= k < i ==> levels[k].name@ != levels[i].name@,
    ensures
        l.level_map().dom().contains(levels[j].name@),
        l.level_map()[levels[j].name@].style == levels[i].style,
{
    assert(l.names() =~= level_names(levels));
    assert(l.levels_view()[i].name@ == level_names(levels)[i]);
    lemma_first_at(l.names(), levels[i].name@, i);
    assert(l.names().contains(levels[j].name@));
    assert(l.levels_view()[i].style == level_styles(levels)[i]);
}

/// After levels are installed, the lookup holds exactly the distinct names
/// given, so as many entries as there are distinct names.
pub proof fn lookup_holds_distinct_names(l: &CatLoggr, levels: Seq<LogLevel>)
    requires
        installed(l.levels_view(), level_names(levels), level_styles(levels)),
    ensures
        l.level_map().dom() == level_names(levels).to_set(),
        l.level_map().dom().len() == level_names(levels).to_set().len(),
{
    assert(l.names() =~= level_names(levels));
    assert(l.level_map().dom() =~= level_names(levels).to_set());
}

/// Centring in the text's own byte length leaves it unchanged, as does a
/// narrower field; centring in a wider field gives exactly that many bytes,
/// the text intact, the floor of half the gap in spaces before it and the
/// ceiling after it.
pub proof fn centring_laws(text: Seq<char>, w: nat)
    ensures
        centred(text, byte_len(text)) == text,
        w <= byte_len(text) ==> centred(text, w) == text,
        w > byte_len(text) ==> {
            let gap = (w - byte_len(text)) as nat;
            let left = gap / 2;
            let r = centred(text, w);
            &&& byte_len(r) == w
            &&& r.len() == text.len() + gap
            &&& r.subrange(left as int, (left + text.len()) as int) == text
            &&& forall|k: int| 0 <= k < left ==> r[k] == ' '
            &&& forall|k: int| left + text.len() <= k < r.len() ==> r[k] == ' '
            &&& r.len() - (left + text.len()) == gap - left
            &&& (gap - left == left || gap - left == left + 1)
        },
{
    if w > byte_len(text) {
        let gap = (w - byte_len(text)) as nat;
        let a = spaces(gap / 2);
        let b = spaces((gap - gap / 2) as nat);
        let r = centred(text, w);
        assert(r == a + text + b);
        lemma_encode_concat(a, text);
        lemma_encode_concat(a + text, b);
        lemma_spaces_bytes(gap / 2);
        lemma_spaces_bytes((gap - gap / 2) as nat);
        assert(r.subrange((gap / 2) as int, (gap / 2) as int + text.len()) =~= text);
    }
}

} // verus!
