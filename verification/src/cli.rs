//! Command-line decisions: where the configuration is, how verbose to be,
//! which output features and repositories to use.
use vstd::prelude::*;

use crate::config::{Config, OutputConfig};
use crate::graph::knowledge_graph::find_last;
use crate::graph::traversal::{
    traversal_outcome, traverse_downstream, traverse_upstream, TraversalDirection, TraversalOptions,
    TraversalResult,
};
use crate::graph::KnowledgeGraph;
use crate::init::{InitOptions, TypeConfig};
use crate::model::item::type_display;
use crate::model::{Item, ItemType};
use crate::output::{format_error, format_success, format_warning, formatted, Color};
use crate::text::{chars_to_string, decimal, extend_str, push_decimal, str_chars, str_views};


verus! {

/// Verbosity levels for command output.
#[derive(Debug, Clone, Copy, PartialEq, Eq, Structural)]
pub enum Verbosity {
    /// Errors only
    Quiet,
    /// Warnings and errors (default)
    Normal,
    /// Info, warnings, and errors
    Verbose,
    /// Debug output
    Debug,
    /// Full trace output
    Trace,
}

impl Verbosity {
    /// Returns the log level filter of this verbosity.
    pub fn as_filter(&self) -> (r: &'static str)
        ensures
            r@ == match *self {
                Verbosity::Quiet => "error"@,
                Verbosity::Normal => "warn"@,
                Verbosity::Verbose => "info"@,
                Verbosity::Debug => "debug"@,
                Verbosity::Trace => "trace"@,
            },
    {
        match self {
            Verbosity::Quiet => "error",
            Verbosity::Normal => "warn",
            Verbosity::Verbose => "info",
            Verbosity::Debug => "debug",
            Verbosity::Trace => "trace",
        }
    }
}

/// The verbosity of the flags: quiet wins; otherwise each `-v` raises the
/// level, up to trace.
pub fn verbosity(quiet: bool, verbose: u8) -> (r: Verbosity)
    ensures
        r == if quiet {
            Verbosity::Quiet
        } else if verbose == 0 {
            Verbosity::Normal
        } else if verbose == 1 {
            Verbosity::Verbose
        } else if verbose == 2 {
            Verbosity::Debug
        } else {
            Verbosity::Trace
        },
{
    if quiet {
        Verbosity::Quiet
    } else {
        match verbose {
            0 => Verbosity::Normal,
            1 => Verbosity::Verbose,
            2 => Verbosity::Debug,
            _ => Verbosity::Trace,
        }
    }
}

/// The output configuration: the configuration file's settings (both on
/// without one), turned off by `--no-color`, `--no-emoji`, and colors also
/// by the `NO_COLOR` environment variable.
pub fn output_config(file_config: Option<&Config>, no_color: bool, no_emoji: bool, env_no_color: bool) -> (r: OutputConfig)
    ensures
        r.colors == (match file_config {
            Some(c) => c.output.colors,
            None => true,
        } && !no_color && !env_no_color),
        r.emojis == (match file_config {
            Some(c) => c.output.emojis,
            None => true,
        } && !no_emoji),
{
    let (config_colors, config_emojis) = match file_config {
        Some(c) => (c.output.colors, c.output.emojis),
        None => (true, true),
    };
    OutputConfig { colors: config_colors && !no_color && !env_no_color, emojis: config_emojis && !no_emoji }
}

/// The default configuration file.
pub open spec fn default_config_file() -> Seq<char> {
    "sara.toml"@
}

/// `s` without its leading `=` signs.
pub open spec fn without_leading_eq(s: Seq<char>) -> Seq<char>
    decreases s.len(),
{
    if s.len() > 0 && s[0] == '=' {
        without_leading_eq(s.drop_first())
    } else {
        s
    }
}

/// True if `a` starts with `p`.
pub open spec fn starts_with(a: Seq<char>, p: Seq<char>) -> bool {
    a.len() >= p.len() && a.take(p.len() as int) == p
}

/// The configuration path the arguments from position `i` give: the value
/// after `-c` or `--config`, the value of `--config=…`, or the value glued
/// to `-c` (without leading `=`).
pub open spec fn config_in_args(args: Seq<Seq<char>>, i: int) -> Option<Seq<char>>
    decreases args.len() - i,
{
    if i < 0 || i >= args.len() {
        None
    } else {
        let a = args[i];
        if a == "-c"@ || a == "--config"@ {
            if i + 1 < args.len() {
                Some(args[i + 1])
            } else {
                None
            }
        } else if starts_with(a, "--config="@) {
            Some(a.skip(9))
        } else if !starts_with(a, "--"@) && starts_with(a, "-c"@) && a.len() > 2 {
            Some(without_leading_eq(a.skip(2)))
        } else {
            config_in_args(args, i + 1)
        }
    }
}

/// True if `a` starts with `p`.
fn chars_start_with(a: &Vec<char>, p: &str) -> (r: bool)
    ensures
        r == starts_with(a@, p@),
{
    let pv = str_chars(p);
    if a.len() < pv.len() {
        return false;
    }
    let mut i: usize = 0;
    while i < pv.len()
        invariant
            pv@ == p@,
            a@.len() >= pv@.len(),
            i <= pv.len(),
            forall|j: int| 0 <= j < i ==> a@[j] == pv@[j],
        decreases pv.len() - i,
    {
        if a[i] != pv[i] {
            assert(a@.take(pv@.len() as int)[i as int] != p@[i as int]);
            return false;
        }
        i += 1;
    }
    assert(a@.take(pv@.len() as int) =~= p@);
    true
}

/// The characters of `v` from position `from` on, without leading `=`
/// signs when `strip` is set.
fn rest_of(v: &Vec<char>, from: usize, strip: bool) -> (r: String)
    requires
        from <= v.len(),
    ensures
        r@ == if strip {
            without_leading_eq(v@.skip(from as int))
        } else {
            v@.skip(from as int)
        },
{
    let mut i = from;
    if strip {
        while i < v.len() && v[i] == '='
            invariant
                from <= i <= v.len(),
                without_leading_eq(v@.skip(from as int)) == without_leading_eq(v@.skip(i as int)),
            decreases v.len() - i,
        {
            assert(v@.skip(i as int).drop_first() =~= v@.skip(i + 1));
            i += 1;
        }
        assert(i < v.len() ==> v@.skip(i as int)[0] == v@[i as int]);
    }
    let mut out: Vec<char> = Vec::new();
    let mut j = i;
    while j < v.len()
        invariant
            i <= j <= v.len(),
            out@ == v@.subrange(i as int, j as int),
        decreases v.len() - j,
    {
        out.push(v[j]);
        assert(out@ =~= v@.subrange(i as int, j + 1));
        j += 1;
    }
    assert(v@.subrange(i as int, v.len() as int) =~= v@.skip(i as int));
    chars_to_string(&out)
}

/// The configuration path before the full command line is parsed: the
/// `SARA_CONFIG` value when set, else the path the arguments give, else
/// `sara.toml`. `args` are the arguments after the program name.
pub fn early_config_path(env_config: Option<&str>, args: &Vec<String>) -> (r: String)
    ensures
        r@ == match env_config {
            Some(e) => e@,
            None => match config_in_args(str_views(args@), 0) {
                Some(p) => p,
                None => default_config_file(),
            },
        },
{
    if let Some(e) = env_config {
        return e.to_owned();
    }
    let ghost av = str_views(args@);
    let mut i: usize = 0;
    while i < args.len()
        invariant
            env_config is None,
            av == str_views(args@),
            i <= args.len(),
            config_in_args(av, 0) == config_in_args(av, i as int),
        decreases args.len() - i,
    {
        let a = str_chars(args[i].as_str());
        assert(a@ == av[i as int]);
        let is_short = chars_start_with(&a, "-c") && a.len() == 2;
        let is_long = chars_start_with(&a, "--config") && a.len() == 8;
        proof {
            reveal_strlit("-c");
            reveal_strlit("--config");
        }
        assert(is_short == (a@ == "-c"@)) by {
            if a@.len() == 2 && starts_with(a@, "-c"@) {
                assert(a@ =~= a@.take(2));
            }
            if a@ == "-c"@ {
                assert(a@.take(2) =~= a@);
            }
        }
        assert(is_long == (a@ == "--config"@)) by {
            if a@.len() == 8 && starts_with(a@, "--config"@) {
                assert(a@ =~= a@.take(8));
            }
            if a@ == "--config"@ {
                assert(a@.take(8) =~= a@);
            }
        }
        assert(config_in_args(av, i as int) == if a@ == "-c"@ || a@ == "--config"@ {
            if i + 1 < av.len() {
                Some(av[i + 1])
            } else {
                None
            }
        } else if starts_with(a@, "--config="@) {
            Some(a@.skip(9))
        } else if !starts_with(a@, "--"@) && starts_with(a@, "-c"@) && a@.len() > 2 {
            Some(without_leading_eq(a@.skip(2)))
        } else {
            config_in_args(av, i + 1)
        });
        if is_short || is_long {
            if i + 1 < args.len() {
                assert(av[i + 1] == args@[i + 1]@);
                return args[i + 1].as_str().to_owned();
            } else {
                return "sara.toml".to_owned();
            }
        }
        proof {
            reveal_strlit("--config=");
            reveal_strlit("--");
        }
        if chars_start_with(&a, "--config=") {
            return rest_of(&a, 9, false);
        }
        if !chars_start_with(&a, "--") && chars_start_with(&a, "-c") && a.len() > 2 {
            return rest_of(&a, 2, true);
        }
        i += 1;
    }
    "sara.toml".to_owned()
}

/// The repositories to scan: those given on the command line, else those
/// of the configuration file; `None` when neither names any (the current
/// directory is scanned then).
pub fn select_repositories(cli_repositories: &Vec<String>, file_config: Option<&Config>) -> (r: Option<Vec<String>>)
    ensures
        cli_repositories@.len() > 0 ==> (r matches Some(v) && str_views(v@) == str_views(cli_repositories@)),
        cli_repositories@.len() == 0 ==> match file_config {
            Some(c) => if c.repositories.paths@.len() > 0 {
                r matches Some(v) && str_views(v@) == str_views(c.repositories.paths@)
            } else {
                r is None
            },
            None => r is None,
        },
{
    if cli_repositories.len() > 0 {
        return Some(crate::text::clone_strings(cli_repositories));
    }
    match file_config {
        Some(c) => if c.repositories.paths.len() > 0 {
            Some(crate::text::clone_strings(&c.repositories.paths))
        } else {
            None
        },
        None => None,
    }
}

/// Output formats of `check`.
#[derive(Debug, Clone, Copy, PartialEq, Eq, Structural)]
pub enum CheckFormat {
    /// Human-readable text.
    Text,
    /// JSON.
    Json,
}

impl Default for CheckFormat {
    fn default() -> (r: CheckFormat)
        ensures
            r == CheckFormat::Text,
    {
        CheckFormat::Text
    }
}

/// Arguments of `check`.
pub struct CheckArgs {
    /// Git reference to check instead of the working tree.
    pub at: Option<String>,
    /// Output format.
    pub format: CheckFormat,
    /// File to write the result to.
    pub output: Option<String>,
    /// Treat orphan items as errors rather than warnings.
    pub strict: bool,
}

/// Output formats of `validate`.
#[derive(Debug, Clone, Copy, PartialEq, Eq, Structural)]
pub enum ValidateFormat {
    /// Human-readable text.
    Text,
    /// JSON.
    Json,
}

impl Default for ValidateFormat {
    fn default() -> (r: ValidateFormat)
        ensures
            r == ValidateFormat::Text,
    {
        ValidateFormat::Text
    }
}

/// Arguments of `validate`.
pub struct ValidateArgs {
    /// Git reference to validate instead of the working tree.
    pub at: Option<String>,
    /// Output format.
    pub format: ValidateFormat,
    /// File to write the report to.
    pub output: Option<String>,
    /// Treat orphan items as errors rather than warnings.
    pub strict: bool,
}

/// Output formats of commands that print either text or JSON.
#[derive(Debug, Clone, Copy, PartialEq, Eq, Structural)]
pub enum OutputFormat {
    /// Human-readable text.
    Text,
    /// JSON.
    Json,
}

/// Options of `diff`.
pub struct CliDiffOptions {
    /// The older reference.
    pub ref1: String,
    /// The newer reference.
    pub ref2: String,
    /// Output format.
    pub format: OutputFormat,
    /// Print the counts only.
    pub stat: bool,
}

/// Arguments of `parse`.
pub struct ParseArgs {
    /// Git reference to parse instead of the working tree.
    pub at: Option<String>,
    /// File to write the export to.
    pub output: Option<String>,
}

/// Arguments of `schema`.
pub struct SchemaArgs {
    /// Print the built-in model rather than the active one.
    pub builtin: bool,
    /// File to write the schema to.
    pub output: Option<String>,
}

/// Output formats of `query`.
#[derive(Debug, Clone, Copy, PartialEq, Eq, Structural)]
pub enum QueryFormat {
    /// An indented tree.
    Tree,
    /// JSON.
    Json,
    /// A Mermaid flowchart.
    Mermaid,
}

impl Default for QueryFormat {
    fn default() -> (r: QueryFormat)
        ensures
            r == QueryFormat::Tree,
    {
        QueryFormat::Tree
    }
}

/// Arguments of `query`.
pub struct QueryArgs {
    /// The item to look up.
    pub item_id: String,
    /// Maximum traversal depth.
    pub depth: Option<usize>,
    /// Only items of these types are reported.
    pub item_types: Vec<ItemType>,
    /// Walk downstream.
    pub downstream: bool,
    /// Walk upstream.
    pub upstream: bool,
    /// Output format.
    pub format: QueryFormat,
}

/// Output formats of `report`.
#[derive(Debug, Clone, Copy, PartialEq, Eq, Structural)]
pub enum ReportFormat {
    /// Human-readable text.
    Text,
    /// JSON.
    Json,
    /// Comma-separated values.
    Csv,
    /// An HTML page.
    Html,
}

impl Default for ReportFormat {
    fn default() -> (r: ReportFormat)
        ensures
            r == ReportFormat::Text,
    {
        ReportFormat::Text
    }
}

/// The reports `report` can produce.
pub enum ReportType {
    /// Coverage of each item type.
    Coverage {
        /// Output format.
        format: ReportFormat,
        /// File to write the report to.
        output: Option<String>,
    },
    /// Traceability matrix.
    Matrix {
        /// Output format.
        format: ReportFormat,
        /// File to write the report to.
        output: Option<String>,
    },
}

/// Arguments of `report`.
pub struct ReportArgs {
    /// The report to produce.
    pub report_type: ReportType,
}

/// A non-interactive `init` request: the file, the item's identity and its
/// type-specific fields.
pub struct InitSubcommand {
    /// The Markdown file.
    pub file: String,
    /// The identifier, generated when absent.
    pub id: Option<String>,
    /// The name, taken from the file when absent.
    pub name: Option<String>,
    /// The description.
    pub description: Option<String>,
    /// Replace existing frontmatter.
    pub force: bool,
    /// The type and its fields.
    pub type_config: TypeConfig,
}

impl InitSubcommand {
    /// The options for the init service that this request describes.
    pub fn to_init_options(self) -> (r: InitOptions)
        ensures
            r.file@ == self.file@,
            r.id == self.id,
            r.name == self.name,
            r.description == self.description,
            r.force == self.force,
            r.type_config == self.type_config,
    {
        InitOptions::new(self.file.as_str(), self.type_config).maybe_id(self.id).maybe_name(self.name).maybe_description(
            self.description,
        ).with_force(self.force)
    }
}

/// Arguments of `init`: a type subcommand, or none for the interactive
/// session.
pub struct InitArgs {
    /// The request, when a type subcommand was given.
    pub command: Option<InitSubcommand>,
}

/// The traversal options of a query: its type filter and its depth limit.
pub fn build_traversal_options(args: &QueryArgs) -> (r: TraversalOptions)
    ensures
        r.max_depth == args.depth,
        r.type_filter@ == args.item_types@,
{
    let mut types: Vec<ItemType> = Vec::new();
    let mut i: usize = 0;
    while i < args.item_types.len()
        invariant
            i <= args.item_types.len(),
            types@ == args.item_types@.take(i as int),
        decreases args.item_types.len() - i,
    {
        types.push(args.item_types[i]);
        i += 1;
        assert(types@ =~= args.item_types@.take(i as int));
    }
    assert(args.item_types@.take(args.item_types.len() as int) =~= args.item_types@);
    let options = TraversalOptions::new().with_types(types);
    match args.depth {
        Some(depth) => options.with_max_depth(depth),
        None => options,
    }
}

/// True if the query asks for the upstream walk and the item is in the
/// graph.
pub open spec fn upstream_shown(args: QueryArgs, graph: KnowledgeGraph, item: Item) -> bool {
    args.upstream && find_last(graph.nodes(), item.id@) is Some
}

/// True if the query asks for the downstream walk and the item is in the
/// graph.
pub open spec fn downstream_shown(args: QueryArgs, graph: KnowledgeGraph, item: Item) -> bool {
    args.downstream && find_last(graph.nodes(), item.id@) is Some
}

/// The traversals a query asks for, each with its section title: the
/// upstream walk first, then the downstream one; none for an item that is
/// not in the graph.
pub fn requested_traversals(args: &QueryArgs, item: &Item, graph: &KnowledgeGraph, options: &TraversalOptions) -> (r: Vec<(String, TraversalResult)>)
    requires
        graph.wf(),
    ensures
        r@.len() == (if upstream_shown(*args, *graph, *item) { 1int } else { 0 }) + (if downstream_shown(
            *args,
            *graph,
            *item,
        ) {
            1int
        } else {
            0
        }),
        upstream_shown(*args, *graph, *item) ==> r@[0].0@ == "Upstream Traceability for "@ + item.id@
            && traversal_outcome(*graph, TraversalDirection::Upstream, *options, item.id@, Some(r@[0].1)),
        downstream_shown(*args, *graph, *item) ==> ({
            let k = if upstream_shown(*args, *graph, *item) { 1int } else { 0 };
            r@[k].0@ == "Downstream from "@ + item.id@ && traversal_outcome(
                *graph,
                TraversalDirection::Downstream,
                *options,
                item.id@,
                Some(r@[k].1),
            )
        }),
{
    let mut out: Vec<(String, TraversalResult)> = Vec::new();
    if args.upstream {
        let res = traverse_upstream(graph, &item.id, options);
        if let Some(result) = res {
            let mut title = str_chars("Upstream Traceability for ");
            extend_str(&mut title, item.id.as_str());
            out.push((chars_to_string(&title), result));
        }
    }
    if args.downstream {
        let res = traverse_downstream(graph, &item.id, options);
        if let Some(result) = res {
            let mut title = str_chars("Downstream from ");
            extend_str(&mut title, item.id.as_str());
            out.push((chars_to_string(&title), result));
        }
    }
    out
}

/// `s` padded on the right with spaces to at least `width` characters (as
/// `{:width}` formats a string).
pub open spec fn pad_right(s: Seq<char>, width: nat) -> Seq<char> {
    if s.len() >= width {
        s
    } else {
        s + Seq::new((width - s.len()) as nat, |i: int| ' ')
    }
}

/// The line of the check report for one item type and its count.
pub open spec fn type_count_line(t: ItemType, n: nat) -> Seq<char> {
    "  "@ + pad_right(type_display(t), 35) + " "@ + decimal(n)
}

/// The lines for item counts by type, each followed by a line feed except
/// the last.
pub open spec fn type_count_lines(rows: Seq<(ItemType, usize)>) -> Seq<char>
    decreases rows.len(),
{
    if rows.len() == 0 {
        seq![]
    } else if rows.len() == 1 {
        type_count_line(rows[0].0, rows[0].1 as nat)
    } else {
        type_count_lines(rows.drop_last()) + "\n"@ + type_count_line(rows.last().0, rows.last().1 as nat)
    }
}

/// Lines, each followed by a line feed.
pub open spec fn line_block(ls: Seq<Seq<char>>) -> Seq<char>
    decreases ls.len(),
{
    if ls.len() == 0 {
        seq![]
    } else {
        line_block(ls.drop_last()) + ls.last() + "\n"@
    }
}

/// The closing message of the check report.
pub open spec fn check_verdict(errors: nat, warnings: nat) -> Seq<char> {
    if errors == 0 {
        if warnings > 0 {
            "Check passed with "@ + decimal(warnings) + " warning(s)"@
        } else {
            "Check passed"@
        }
    } else {
        "Check failed with "@ + decimal(errors) + " error(s) and "@ + decimal(warnings) + " warning(s)"@
    }
}

/// The text of the check report, given the formatted error and warning
/// lines and the formatted closing line.
pub open spec fn check_text(
    items: nat,
    relationships: nat,
    parse_ms: nat,
    rows: Seq<(ItemType, usize)>,
    error_lines: Seq<Seq<char>>,
    warning_lines: Seq<Seq<char>>,
    last: Seq<char>,
) -> Seq<char> {
    "\nCheck Results\n=============\n\nItems:                 "@ + decimal(items) + "\nRelationships:         "@
        + decimal(relationships) + "\nParse time:            "@ + decimal(parse_ms) + "ms"@ + (if rows.len()
        == 0 {
        seq![]
    } else {
        "\nItems by type:\n"@ + type_count_lines(rows) + "\n"@
    }) + (if error_lines.len() == 0 {
        seq![]
    } else {
        "\n"@ + line_block(error_lines)
    }) + (if warning_lines.len() == 0 {
        seq![]
    } else {
        "\n"@ + line_block(warning_lines)
    }) + "\n"@ + last
}

/// Appends `s` padded on the right with spaces to `width` characters.
fn push_padded(out: &mut Vec<char>, s: &str, width: usize)
    ensures
        final(out)@ == old(out)@ + pad_right(s@, width as nat),
{
    let ghost start = out@;
    extend_str(out, s);
    let n = str_chars(s).len();
    if n < width {
        let mut k: usize = n;
        while k < width
            invariant
                n <= k <= width,
                n == s@.len(),
                out@ == start + s@ + Seq::new((k - n) as nat, |i: int| ' '),
            decreases width - k,
        {
            out.push(' ');
            k += 1;
            assert(out@ =~= start + s@ + Seq::new((k - n) as nat, |i: int| ' '));
        }
        assert(out@ =~= start + pad_right(s@, width as nat));
    } else {
        assert(out@ =~= start + pad_right(s@, width as nat));
    }
}

/// Appends the lines for item counts by type.
fn push_type_count_lines(out: &mut Vec<char>, rows: &Vec<(ItemType, usize)>)
    ensures
        final(out)@ == old(out)@ + type_count_lines(rows@),
{
    let ghost h2 = out@;
    let mut i: usize = 0;
    assert(rows@.take(0) =~= Seq::<(ItemType, usize)>::empty());
    while i < rows.len()
        invariant
            i <= rows.len(),
            out@ == h2 + type_count_lines(rows@.take(i as int)),
        decreases rows.len() - i,
    {
        proof {
            reveal_strlit("\n");
        }
        let (t, n) = rows[i];
        let ghost before = out@;
        if i > 0 {
            out.push('\n');
        }
        extend_str(out, "  ");
        push_padded(out, t.display_name(), 35);
        extend_str(out, " ");
        push_decimal(out, n as u64);
        proof {
            let rs = rows@.take(i + 1);
            assert(rs.drop_last() =~= rows@.take(i as int));
            assert(rs.last() == (t, n));
            if i == 0 {
                assert(out@ =~= h2 + type_count_lines(rs));
            } else {
                assert(out@ =~= before + "\n"@ + type_count_line(t, n as nat));
                assert(out@ =~= h2 + type_count_lines(rs));
            }
        }
        i += 1;
    }
    assert(rows@.take(rows.len() as int) =~= rows@);
}

/// Appends each message formatted as an error (or, when `as_error` is
/// false, as a warning), each followed by a line feed; gives the formatted
/// lines.
fn push_message_lines(out: &mut Vec<char>, messages: &Vec<String>, config: &crate::output::OutputConfig, as_error: bool) -> (lines: Ghost<Seq<Seq<char>>>)
    ensures
        lines@.len() == messages@.len(),
        forall|k: int|
            0 <= k < lines@.len() ==> if as_error {
                formatted(*config, "❌"@, "[ERR]"@, Color::Red, messages@[k]@, #[trigger] lines@[k])
            } else {
                formatted(*config, "⚠️ "@, "[WARN]"@, Color::Yellow, messages@[k]@, lines@[k])
            },
        final(out)@ == old(out)@ + line_block(lines@),
{
    let ghost h = out@;
    let ghost mut el: Seq<Seq<char>> = Seq::empty();
    let mut i: usize = 0;
    while i < messages.len()
        invariant
            i <= messages.len(),
            el.len() == i,
            forall|k: int|
                0 <= k < i ==> if as_error {
                    formatted(*config, "❌"@, "[ERR]"@, Color::Red, messages@[k]@, #[trigger] el[k])
                } else {
                    formatted(*config, "⚠️ "@, "[WARN]"@, Color::Yellow, messages@[k]@, el[k])
                },
            out@ == h + line_block(el),
        decreases messages.len() - i,
    {
        proof {
            reveal_strlit("\n");
        }
        let line = if as_error {
            format_error(config, messages[i].as_str())
        } else {
            format_warning(config, messages[i].as_str())
        };
        let ghost before = out@;
        extend_str(out, line.as_str());
        out.push('\n');
        proof {
            let old_el = el;
            el = el.push(line@);
            assert(el.drop_last() =~= old_el);
            assert(el.last() == line@);
            assert(out@ =~= before + line@ + "\n"@);
            assert(out@ =~= h + line_block(el));
        }
        i += 1;
    }
    Ghost(el)
}

/// The text report of the check command: the counts, the parse time, the
/// items by type, the errors and the warnings, then whether the check
/// passed. The messages are colored and marked as `format_error`,
/// `format_warning` and `format_success` give them.
pub fn check_text_output(
    items: usize,
    relationships: usize,
    parse_ms: u64,
    items_by_type: &Vec<(ItemType, usize)>,
    errors: &Vec<String>,
    warnings: &Vec<String>,
    config: &crate::output::OutputConfig,
) -> (r: String)
    ensures
        exists|el: Seq<Seq<char>>, wl: Seq<Seq<char>>, last: Seq<char>|
            #![trigger check_text(
                items as nat,
                relationships as nat,
                parse_ms as nat,
                items_by_type@,
                el,
                wl,
                last,
            )]
            {
                &&& el.len() == errors@.len()
                &&& forall|i: int|
                    0 <= i < el.len() ==> formatted(*config, "❌"@, "[ERR]"@, Color::Red, errors@[i]@, #[trigger] el[i])
                &&& wl.len() == warnings@.len()
                &&& forall|i: int|
                    0 <= i < wl.len() ==> formatted(
                        *config,
                        "⚠️ "@,
                        "[WARN]"@,
                        Color::Yellow,
                        warnings@[i]@,
                        #[trigger] wl[i],
                    )
                &&& if errors@.len() == 0 {
                    formatted(
                        *config,
                        "✅"@,
                        "[OK]"@,
                        Color::Green,
                        check_verdict(0, warnings@.len()),
                        last,
                    )
                } else {
                    formatted(
                        *config,
                        "❌"@,
                        "[ERR]"@,
                        Color::Red,
                        check_verdict(errors@.len(), warnings@.len()),
                        last,
                    )
                }
                &&& r@ == check_text(
                    items as nat,
                    relationships as nat,
                    parse_ms as nat,
                    items_by_type@,
                    el,
                    wl,
                    last,
                )
            },
{
    proof {
        reveal_strlit("\n");
    }
    let mut out = str_chars("\nCheck Results\n=============\n\nItems:                 ");
    push_decimal(&mut out, items as u64);
    extend_str(&mut out, "\nRelationships:         ");
    push_decimal(&mut out, relationships as u64);
    extend_str(&mut out, "\nParse time:            ");
    push_decimal(&mut out, parse_ms);
    extend_str(&mut out, "ms");
    let ghost h1 = out@;
    if items_by_type.len() > 0 {
        extend_str(&mut out, "\nItems by type:\n");
        push_type_count_lines(&mut out, items_by_type);
        out.push('\n');
    }
    let ghost h3 = out@;
    let ghost mut el: Seq<Seq<char>> = Seq::empty();
    if errors.len() > 0 {
        out.push('\n');
        let lines = push_message_lines(&mut out, errors, config, true);
        proof {
            el = lines@;
        }
    }
    let ghost h4 = out@;
    let ghost mut wl: Seq<Seq<char>> = Seq::empty();
    if warnings.len() > 0 {
        out.push('\n');
        let lines = push_message_lines(&mut out, warnings, config, false);
        proof {
            wl = lines@;
        }
    }
    out.push('\n');
    let last = if errors.len() == 0 {
        if warnings.len() > 0 {
            let mut m = str_chars("Check passed with ");
            push_decimal(&mut m, warnings.len() as u64);
            extend_str(&mut m, " warning(s)");
            format_success(config, chars_to_string(&m).as_str())
        } else {
            format_success(config, "Check passed")
        }
    } else {
        let mut m = str_chars("Check failed with ");
        push_decimal(&mut m, errors.len() as u64);
        extend_str(&mut m, " error(s) and ");
        push_decimal(&mut m, warnings.len() as u64);
        extend_str(&mut m, " warning(s)");
        format_error(config, chars_to_string(&m).as_str())
    };
    extend_str(&mut out, last.as_str());
    let r = chars_to_string(&out);
    assert(h3 =~= h1 + if items_by_type@.len() == 0 {
        Seq::<char>::empty()
    } else {
        "\nItems by type:\n"@ + type_count_lines(items_by_type@) + "\n"@
    });
    assert(h4 =~= h3 + if errors@.len() == 0 {
        Seq::<char>::empty()
    } else {
        "\n"@ + line_block(el)
    });
    assert(r@ =~= check_text(
        items as nat,
        relationships as nat,
        parse_ms as nat,
        items_by_type@,
        el,
        wl,
        last@,
    ));
    r
}

} // verus!
