//! The command language of the interactive template tester: argument parsing and the
//! commands that edit bindings and entity sets. Each command reports the lines it would
//! print; the program around it does the printing.
use vstd::prelude::*;
use crate::debug::{debug_model, payload_has_subset, DebugEntity, EntitiesPayload};
use crate::grammar::string_views;
use crate::keymap::KeyMap;
use crate::models::{opt_view, Gender};
use crate::text::{
    append_chars, append_str, chars_eq_ignore_ascii_case, chars_find_from, chars_of, chars_trim,
    eq_ignore_ascii_case, find, lemma_find_bounds, split_chars, split_on, str_eq,
    str_to_lowercase, string_of, subrange_of, trim, unicode_lowercase, views, text_lt, chars_lt,
    lemma_text_lt_total, lemma_text_lt_trans, chars_eq, chars_starts_with_str, starts_with,
    str_eq_ignore_ascii_case,
};

verus! {

// ---------------------------------------------------------------------------
// Arguments
// ---------------------------------------------------------------------------

/// The usage text that follows "Usage: <program>".
pub open spec fn usage_tail() -> Seq<char> {
    " [input_template_file] [output_file] [--entities <json_file>] [--bind <key=subset>] [--interactive | -i] [--lookahead | -l]\n[input_template_file] : Path to a text file containing the raw template.\n[output_file]         : (Optional) Path to save the generated permutations.\nIf omitted, results are printed to standard output.\n--entities <json_file>: (Optional) Path to a JSON file containing an array of custom entities.\n--bind <key=subset>   : (Optional) Bind a template key to a specific entity subset (e.g. --bind weapon=objects).\n--interactive, -i     : Start in interactive mode. This is the default if no input file is provided.\n--lookahead, -l       : Enable lookahead (AST Pre-Pass) to test omniscient collision resolution."@
}

/// The usage text of the tester run as `bin_name`.
pub open spec fn usage_text(bin_name: Seq<char>) -> Seq<char> {
    "Usage: "@ + bin_name + usage_tail()
}

/// Builds the usage text of the tester run as `bin_name`.
pub fn get_usage(bin_name: &str) -> (r: String)
    ensures
        r@ == usage_text(bin_name@),
{
    let mut v = chars_of("Usage: ");
    append_str(&mut v, bin_name);
    append_str(
        &mut v,
        " [input_template_file] [output_file] [--entities <json_file>] [--bind <key=subset>] [--interactive | -i] [--lookahead | -l]\n[input_template_file] : Path to a text file containing the raw template.\n[output_file]         : (Optional) Path to save the generated permutations.\nIf omitted, results are printed to standard output.\n--entities <json_file>: (Optional) Path to a JSON file containing an array of custom entities.\n--bind <key=subset>   : (Optional) Bind a template key to a specific entity subset (e.g. --bind weapon=objects).\n--interactive, -i     : Start in interactive mode. This is the default if no input file is provided.\n--lookahead, -l       : Enable lookahead (AST Pre-Pass) to test omniscient collision resolution.",
    );
    string_of(&v)
}

/// The options the tester was started with.
#[derive(Debug)]
pub struct CliConfig {
    /// The template file; empty in interactive mode.
    pub input_path: String,
    /// Where to save the permutations.
    pub output_path: Option<String>,
    /// A JSON file of custom entities.
    pub entities_path: Option<String>,
    /// A JSON file describing one specific context.
    pub context_path: Option<String>,
    /// Whether to start the interactive prompt.
    pub interactive: bool,
    /// Whether to enable the lookahead pre-pass.
    pub lookahead: bool,
    /// Template keys bound to entity subsets.
    pub cli_bindings: KeyMap<String>,
}

/// The plain-value model of the options.
pub struct CliModel {
    pub input_path: Seq<char>,
    pub output_path: Option<Seq<char>>,
    pub entities_path: Option<Seq<char>>,
    pub context_path: Option<Seq<char>>,
    pub interactive: bool,
    pub lookahead: bool,
    pub bindings: Map<Seq<char>, Seq<char>>,
}

/// The values of a string map, by their views.
pub open spec fn string_map(m: KeyMap<String>) -> Map<Seq<char>, Seq<char>> {
    m.map().map_values(|v: String| v@)
}

/// The model of the options.
pub open spec fn config_model(c: CliConfig) -> CliModel {
    CliModel {
        input_path: c.input_path@,
        output_path: opt_view(c.output_path),
        entities_path: opt_view(c.entities_path),
        context_path: opt_view(c.context_path),
        interactive: c.interactive,
        lookahead: c.lookahead,
        bindings: string_map(c.cli_bindings),
    }
}

/// The options before any argument is read.
pub open spec fn cli_start() -> CliModel {
    CliModel {
        input_path: seq![],
        output_path: None,
        entities_path: None,
        context_path: None,
        interactive: false,
        lookahead: false,
        bindings: Map::empty(),
    }
}

/// The argument at a position, if there is one.
pub open spec fn arg_at(args: Seq<Seq<char>>, i: int) -> Option<Seq<char>> {
    if 0 <= i < args.len() { Some(args[i]) } else { None }
}

/// The message for a `--bind` value without '='.
pub open spec fn invalid_bind_message() -> Seq<char> {
    "Invalid bind format. Expected key=subset (e.g., weapon=objects)"@
}

/// Reads the arguments from position `i` on: a flag that takes a value consumes the next
/// argument (and sets nothing when there is none); the first other argument is the input
/// file, the second the output file, and a third one is an error.
pub open spec fn parse_from(args: Seq<Seq<char>>, i: int, st: CliModel, bin_name: Seq<char>) -> Result<CliModel, Seq<char>>
    decreases args.len() + 1 - i,
{
    if i < 0 || i >= args.len() {
        Ok(st)
    } else {
        let a = args[i];
        if a == "--entities"@ {
            parse_from(args, i + 2, CliModel { entities_path: arg_at(args, i + 1), ..st }, bin_name)
        } else if a == "--context"@ || a == "-c"@ {
            parse_from(args, i + 2, CliModel { context_path: arg_at(args, i + 1), ..st }, bin_name)
        } else if a == "--interactive"@ || a == "-i"@ {
            parse_from(args, i + 1, CliModel { interactive: true, ..st }, bin_name)
        } else if a == "--lookahead"@ || a == "-l"@ {
            parse_from(args, i + 1, CliModel { lookahead: true, ..st }, bin_name)
        } else if a == "--bind"@ || a == "-b"@ {
            match arg_at(args, i + 1) {
                Some(b) => match find(b, seq!['=']) {
                    Some(k) => parse_from(
                        args,
                        i + 2,
                        CliModel { bindings: st.bindings.insert(b.take(k), b.skip(k + 1)), ..st },
                        bin_name,
                    ),
                    None => Err(invalid_bind_message()),
                },
                None => parse_from(args, i + 2, st, bin_name),
            }
        } else if st.input_path.len() == 0 {
            parse_from(args, i + 1, CliModel { input_path: a, ..st }, bin_name)
        } else if st.output_path is None {
            parse_from(args, i + 1, CliModel { output_path: Some(a), ..st }, bin_name)
        } else {
            Err("Unexpected argument: "@ + a + "\n\n"@ + usage_text(bin_name))
        }
    }
}

/// The options given by a command line (the program name first); without an input file
/// the tester is interactive.
pub open spec fn parsed_args(args: Seq<Seq<char>>) -> Result<CliModel, Seq<char>> {
    let bin_name = if args.len() > 0 { args[0] } else { "mud_template_tester"@ };
    match parse_from(args, 1, cli_start(), bin_name) {
        Ok(c) => Ok(if c.input_path.len() == 0 { CliModel { interactive: true, ..c } } else { c }),
        Err(e) => Err(e),
    }
}

/// A clone of the argument at a position, if there is one.
fn cloned_arg(args: &Vec<String>, i: usize) -> (r: Option<String>)
    ensures
        opt_view(r) == arg_at(string_views(args@), i as int),
{
    if i < args.len() {
        Some(args[i].clone())
    } else {
        None
    }
}

/// The position two arguments on, kept within the argument list.
fn skip_two(i: usize, n: usize) -> (r: usize)
    requires
        i < n,
    ensures
        r == (if i + 2 <= n { i + 2 } else { n as int }),
{
    if n - i >= 2 { i + 2 } else { n }
}

/// Parses the tester's command line (the program name first); see `parsed_args`.
pub fn parse_args(args: &Vec<String>) -> (r: Result<CliConfig, String>)
    ensures
        match r {
            Ok(c) => parsed_args(string_views(args@)) == Ok::<CliModel, Seq<char>>(config_model(c)),
            Err(e) => parsed_args(string_views(args@)) == Err::<CliModel, Seq<char>>(e@),
        },
{
    let ghost av = string_views(args@);
    let bin_name = if args.len() > 0 {
        args[0].clone()
    } else {
        String::from_str("mud_template_tester")
    };
    let ghost bin = bin_name@;
    let mut config = CliConfig {
        input_path: String::new(),
        output_path: None,
        entities_path: None,
        context_path: None,
        interactive: false,
        lookahead: false,
        cli_bindings: KeyMap::new(),
    };
    assert(config_model(config).bindings =~= Map::<Seq<char>, Seq<char>>::empty());
    assert(config_model(config) == cli_start());
    let mut i: usize = 1;
    while i < args.len()
        invariant
            1 <= i,
            av == string_views(args@),
            bin == (if args@.len() > 0 { av[0] } else { "mud_template_tester"@ }),
            bin_name@ == bin,
            parse_from(av, i as int, config_model(config), bin) == parse_from(av, 1, cli_start(), bin),
        decreases args.len() - i,
    {
        let arg = args[i].as_str();
        assert(av[i as int] == arg@);
        let ghost old_model = config_model(config);
        let ghost old_i = i as int;
        if str_eq(arg, "--entities") {
            config.entities_path = cloned_arg(args, i + 1);
            assert(config_model(config) == CliModel { entities_path: arg_at(av, old_i + 1), ..old_model });
            assert(parse_from(av, old_i, old_model, bin) == parse_from(av, old_i + 2, config_model(config), bin));
            i = skip_two(i, args.len());
            assert(parse_from(av, old_i + 2, config_model(config), bin) == parse_from(av, i as int, config_model(config), bin));
        } else if str_eq(arg, "--context") || str_eq(arg, "-c") {
            config.context_path = cloned_arg(args, i + 1);
            i = skip_two(i, args.len());
            assert(parse_from(av, old_i, old_model, bin) == parse_from(av, i as int, config_model(config), bin));
        } else if str_eq(arg, "--interactive") || str_eq(arg, "-i") {
            config.interactive = true;
            i = i + 1;
            assert(parse_from(av, old_i, old_model, bin) == parse_from(av, i as int, config_model(config), bin));
        } else if str_eq(arg, "--lookahead") || str_eq(arg, "-l") {
            config.lookahead = true;
            i = i + 1;
            assert(parse_from(av, old_i, old_model, bin) == parse_from(av, i as int, config_model(config), bin));
        } else if str_eq(arg, "--bind") || str_eq(arg, "-b") {
            if i + 1 < args.len() {
                let bind_str = chars_of(args[i + 1].as_str());
                assert(av[i + 1] == bind_str@);
                let eq = vec!['='];
                assert(eq@ =~= seq!['=']);
                match chars_find_from(&bind_str, &eq, 0) {
                    Some(k) => {
                        proof {
                            lemma_find_bounds(bind_str@, eq@, 0);
                        }
                        assert(k < bind_str.len());
                        let value_start = k + 1;
                        let key = string_of(&subrange_of(&bind_str, 0, k));
                        let value = string_of(&subrange_of(&bind_str, value_start, bind_str.len()));
                        assert(key@ =~= bind_str@.take(k as int));
                        assert(value@ =~= bind_str@.skip(k + 1));
                        let ghost before = config_model(config);
                        config.cli_bindings.insert(key, value);
                        assert(config_model(config).bindings =~= before.bindings.insert(key@, value@));
                    },
                    None => {
                        return Err(String::from_str("Invalid bind format. Expected key=subset (e.g., weapon=objects)"));
                    },
                }
            } else {
                assert(arg_at(av, old_i + 1) is None);
                assert(config_model(config) == old_model);
            }
            assert(parse_from(av, old_i, old_model, bin) == parse_from(av, old_i + 2, config_model(config), bin));
            i = skip_two(i, args.len());
            assert(parse_from(av, old_i + 2, config_model(config), bin) == parse_from(av, i as int, config_model(config), bin));
        } else if config.input_path.as_str().unicode_len() == 0 {
            config.input_path = args[i].clone();
            i = i + 1;
            assert(parse_from(av, old_i, old_model, bin) == parse_from(av, i as int, config_model(config), bin));
        } else if config.output_path.is_none() {
            config.output_path = Some(args[i].clone());
            i = i + 1;
            assert(parse_from(av, old_i, old_model, bin) == parse_from(av, i as int, config_model(config), bin));
        } else {
            assert(old_model.output_path is Some);
            let mut msg = chars_of("Unexpected argument: ");
            append_str(&mut msg, arg);
            append_str(&mut msg, "\n\n");
            let usage = get_usage(bin_name.as_str());
            append_str(&mut msg, usage.as_str());
            assert(msg@ =~= "Unexpected argument: "@ + arg@ + "\n\n"@ + usage_text(bin));
            return Err(string_of(&msg));
        }
    }
    if config.input_path.as_str().unicode_len() == 0 {
        config.interactive = true;
    }
    Ok(config)
}

// ---------------------------------------------------------------------------
// Interactive commands
// ---------------------------------------------------------------------------

/// The help text of the interactive prompt, line by line.
pub open spec fn help_lines() -> Seq<Seq<char>> {
    seq![
        "Commands:"@,
        "  bind <key>=<subset> : Bind a template key to an entity subset"@,
        "  unbind <key>        : Remove a binding"@,
        "  bindings            : List current bindings"@,
        "  sets                : List all subsets"@,
        "  set <name>          : List entities in a subset"@,
        "  add <subset>,<id>,<name>,<gender>,<pl>,<prop> : Add an entity"@,
        "  remove <id>         : Remove an entity"@,
        "  help                : Show this help message"@,
        "  exit / quit         : Exit the tester"@,
    ]
}

/// Writes the help text of the interactive prompt.
pub fn print_interactive_help(writer: &mut Vec<String>)
    ensures
        string_views(final(writer)@) == string_views(old(writer)@) + help_lines(),
{
    let ghost before = string_views(writer@);
    writer.push(String::from_str("Commands:"));
    writer.push(String::from_str("  bind <key>=<subset> : Bind a template key to an entity subset"));
    writer.push(String::from_str("  unbind <key>        : Remove a binding"));
    writer.push(String::from_str("  bindings            : List current bindings"));
    writer.push(String::from_str("  sets                : List all subsets"));
    writer.push(String::from_str("  set <name>          : List entities in a subset"));
    writer.push(String::from_str("  add <subset>,<id>,<name>,<gender>,<pl>,<prop> : Add an entity"));
    writer.push(String::from_str("  remove <id>         : Remove an entity"));
    writer.push(String::from_str("  help                : Show this help message"));
    writer.push(String::from_str("  exit / quit         : Exit the tester"));
    assert(string_views(writer@) =~= before + help_lines());
}

/// The listing of the bindings, in the order their keys were bound.
pub open spec fn binding_lines(b: KeyMap<String>) -> Seq<Seq<char>> {
    if b.key_order().len() == 0 {
        seq!["No active bindings."@]
    } else {
        seq!["Current bindings:"@] + b.key_order().map_values(
            |k: Seq<char>| "  "@ + k + " = "@ + string_map(b)[k],
        )
    }
}

/// Writes the listing of the bindings.
pub fn handle_bindings(bindings: &KeyMap<String>, writer: &mut Vec<String>)
    ensures
        string_views(final(writer)@) == string_views(old(writer)@) + binding_lines(*bindings),
{
    let ghost before = string_views(writer@);
    let n = bindings.len();
    if n == 0 {
        writer.push(String::from_str("No active bindings."));
        assert(string_views(writer@) =~= before + binding_lines(*bindings));
        return;
    }
    writer.push(String::from_str("Current bindings:"));
    let ghost lines = binding_lines(*bindings);
    let mut i: usize = 0;
    while i < n
        invariant
            i <= n,
            n == bindings.key_order().len(),
            n > 0,
            lines == binding_lines(*bindings),
            string_views(writer@) == before + lines.take(i + 1),
        decreases n - i,
    {
        let (k, v) = bindings.entry_at(i);
        let mut line = chars_of("  ");
        append_str(&mut line, k.as_str());
        append_str(&mut line, " = ");
        append_str(&mut line, v.as_str());
        let ghost w = string_views(writer@);
        writer.push(string_of(&line));
        assert(lines[i + 1] == "  "@ + k@ + " = "@ + v@);
        assert(lines.take(i + 2) =~= lines.take(i + 1).push(lines[i + 1]));
        assert(string_views(writer@) =~= w.push(line@));
        i = i + 1;
    }
    assert(lines.take(n + 1) =~= lines);
}

/// The outcome of a `bind key=subset` command: the bindings after it and the line it
/// reports. The subset must exist in the payload, when one is loaded.
pub open spec fn bind_outcome(args: Seq<char>, b: Map<Seq<char>, Seq<char>>, payload: Option<EntitiesPayload>) -> (Map<Seq<char>, Seq<char>>, Seq<char>) {
    let a = trim(args);
    match find(a, seq!['=']) {
        Some(i) => {
            let k = trim(a.take(i));
            let subset = trim(a.skip(i + 1));
            let valid = match payload {
                Some(p) => payload_has_subset(p, subset),
                None => true,
            };
            if valid {
                (b.insert(k, subset), "Bound '"@ + k + "' to '"@ + subset + "'"@)
            } else {
                (b, "Error: Subset '"@ + subset + "' does not exist."@)
            }
        },
        None => (b, "Invalid bind format. Use: bind key=subset (e.g., bind weapon=objects)"@),
    }
}

/// Binds a template key to an entity subset (`key=subset`), if the subset exists.
pub fn handle_bind(args: &str, bindings: &mut KeyMap<String>, payload: Option<&EntitiesPayload>, writer: &mut Vec<String>)
    ensures
        string_map(*final(bindings)) == bind_outcome(args@, string_map(*old(bindings)), match payload {
            Some(p) => Some(*p),
            None => None,
        }).0,
        string_views(final(writer)@) == string_views(old(writer)@).push(bind_outcome(args@, string_map(*old(bindings)), match payload {
            Some(p) => Some(*p),
            None => None,
        }).1),
{
    let ghost w = string_views(writer@);
    let a = chars_trim(&chars_of(args));
    let eq = vec!['='];
    assert(eq@ =~= seq!['=']);
    match chars_find_from(&a, &eq, 0) {
        Some(i) => {
            proof {
                lemma_find_bounds(a@, eq@, 0);
            }
            let k = chars_trim(&subrange_of(&a, 0, i));
            let subset = chars_trim(&subrange_of(&a, i + 1, a.len()));
            assert(a@.subrange(0, i as int) =~= a@.take(i as int));
            assert(a@.subrange(i + 1, a.len() as int) =~= a@.skip(i + 1));
            let subset_s = string_of(&subset);
            let is_valid = match payload {
                Some(p) => p.has_subset(subset_s.as_str()),
                None => true,
            };
            if is_valid {
                let ghost before = string_map(*bindings);
                bindings.insert(string_of(&k), subset_s);
                assert(string_map(*bindings) =~= before.insert(k@, subset@));
                let mut line = chars_of("Bound '");
                append_chars(&mut line, &k);
                append_str(&mut line, "' to '");
                append_chars(&mut line, &subset);
                append_str(&mut line, "'");
                writer.push(string_of(&line));
            } else {
                let mut line = chars_of("Error: Subset '");
                append_chars(&mut line, &subset);
                append_str(&mut line, "' does not exist.");
                writer.push(string_of(&line));
            }
        },
        None => {
            writer.push(String::from_str("Invalid bind format. Use: bind key=subset (e.g., bind weapon=objects)"));
        },
    }
    assert(string_views(writer@) =~= w.push(string_views(writer@).last()));
}

/// The outcome of an `unbind key` command: the bindings after it and the line it reports.
pub open spec fn unbind_outcome(args: Seq<char>, b: Map<Seq<char>, Seq<char>>) -> (Map<Seq<char>, Seq<char>>, Seq<char>) {
    let key = trim(args);
    if b.contains_key(key) {
        (b.remove(key), "Unbound '"@ + key + "'"@)
    } else {
        (b, "Key '"@ + key + "' was not bound."@)
    }
}

/// Removes the binding of a template key.
pub fn handle_unbind(args: &str, bindings: &mut KeyMap<String>, writer: &mut Vec<String>)
    ensures
        string_map(*final(bindings)) == unbind_outcome(args@, string_map(*old(bindings))).0,
        string_views(final(writer)@) == string_views(old(writer)@).push(
            unbind_outcome(args@, string_map(*old(bindings))).1,
        ),
{
    let ghost w = string_views(writer@);
    let ghost before = string_map(*bindings);
    let key = string_of(&chars_trim(&chars_of(args)));
    let removed = bindings.remove(key.as_str());
    assert(string_map(*bindings) =~= before.remove(key@));
    let mut line = if removed.is_some() {
        chars_of("Unbound '")
    } else {
        chars_of("Key '")
    };
    append_str(&mut line, key.as_str());
    if removed.is_some() {
        append_str(&mut line, "'");
    } else {
        append_str(&mut line, "' was not bound.");
        assert(string_map(*bindings) =~= before);
    }
    writer.push(string_of(&line));
    assert(string_views(writer@) =~= w.push(line@));
}

/// The models of a list of debug entities.
pub open spec fn entity_models(v: Seq<DebugEntity>) -> Seq<(Seq<char>, Seq<char>, Gender, bool, bool, Seq<char>)> {
    v.map_values(|e: DebugEntity| debug_model(e))
}

/// The Debug name of a gender.
pub open spec fn gender_text(g: Gender) -> Seq<char> {
    match g {
        Gender::Male => "Male"@,
        Gender::Female => "Female"@,
        Gender::Neutral => "Neutral"@,
        Gender::Plural => "Plural"@,
    }
}

/// The Display text of a boolean.
pub open spec fn bool_text(b: bool) -> Seq<char> {
    if b { "true"@ } else { "false"@ }
}

/// The Debug name of a gender.
fn gender_str(g: Gender) -> (r: &'static str)
    ensures
        r@ == gender_text(g),
{
    match g {
        Gender::Male => "Male",
        Gender::Female => "Female",
        Gender::Neutral => "Neutral",
        Gender::Plural => "Plural",
    }
}

/// The Display text of a boolean.
fn bool_str(b: bool) -> (r: &'static str)
    ensures
        r@ == bool_text(b),
{
    if b { "true" } else { "false" }
}

/// The listing line of one entity of a subset.
pub open spec fn entity_line(m: (Seq<char>, Seq<char>, Gender, bool, bool, Seq<char>)) -> Seq<char> {
    "  id: "@ + m.0 + ", name: "@ + m.1 + ", gender: "@ + gender_text(m.2) + ", plural: "@ + bool_text(m.3)
        + ", proper: "@ + bool_text(m.4)
}

/// The entities of a subset.
pub open spec fn in_subset(ms: Seq<(Seq<char>, Seq<char>, Gender, bool, bool, Seq<char>)>, name: Seq<char>) -> Seq<(Seq<char>, Seq<char>, Gender, bool, bool, Seq<char>)> {
    ms.filter(|m: (Seq<char>, Seq<char>, Gender, bool, bool, Seq<char>)| m.5 == name)
}

/// What a `set <name>` command reports: the entities of the subset, one per line.
pub open spec fn set_lines(args: Seq<char>, payload: Option<EntitiesPayload>) -> Seq<Seq<char>> {
    let name = trim(args);
    match payload {
        Some(p) => {
            let matching = in_subset(entity_models(p.entities@), name);
            if matching.len() == 0 {
                seq!["No entities in subset '"@ + name + "'."@]
            } else {
                seq!["Entities in subset '"@ + name + "':"@] + matching.map_values(
                    |m: (Seq<char>, Seq<char>, Gender, bool, bool, Seq<char>)| entity_line(m),
                )
            }
        },
        None => seq!["No payload loaded."@],
    }
}

/// Writes the entities of a subset.
pub fn handle_set(args: &str, payload: Option<&EntitiesPayload>, writer: &mut Vec<String>)
    ensures
        string_views(final(writer)@) == string_views(old(writer)@) + set_lines(args@, match payload {
            Some(p) => Some(*p),
            None => None,
        }),
{
    let ghost w = string_views(writer@);
    let name = chars_trim(&chars_of(args));
    match payload {
        Some(p) => {
            let ghost all = entity_models(p.entities@);
            let ghost pred = |m: (Seq<char>, Seq<char>, Gender, bool, bool, Seq<char>)| m.5 == name@;
            let mut lines: Vec<String> = Vec::new();
            let mut i: usize = 0;
            assert(all.take(0).filter(pred) =~= Seq::<(Seq<char>, Seq<char>, Gender, bool, bool, Seq<char>)>::empty());
            while i < p.entities.len()
                invariant
                    i <= p.entities.len(),
                    all == entity_models(p.entities@),
                    pred == (|m: (Seq<char>, Seq<char>, Gender, bool, bool, Seq<char>)| m.5 == name@),
                    string_views(lines@) == all.take(i as int).filter(pred).map_values(
                        |m: (Seq<char>, Seq<char>, Gender, bool, bool, Seq<char>)| entity_line(m),
                    ),
                decreases p.entities.len() - i,
            {
                let e = &p.entities[i];
                assert(all.take(i + 1).drop_last() =~= all.take(i as int));
                assert(all.take(i + 1).last() == debug_model(*e));
                reveal_with_fuel(Seq::<_>::filter, 1);
                let ghost before = string_views(lines@);
                if chars_eq(&chars_of(e.subset.as_str()), &name) {
                    let mut line = chars_of("  id: ");
                    append_str(&mut line, e.id.as_str());
                    append_str(&mut line, ", name: ");
                    append_str(&mut line, e.name.as_str());
                    append_str(&mut line, ", gender: ");
                    append_str(&mut line, gender_str(e.gender));
                    append_str(&mut line, ", plural: ");
                    append_str(&mut line, bool_str(e.is_plural));
                    append_str(&mut line, ", proper: ");
                    append_str(&mut line, bool_str(e.is_proper_noun));
                    lines.push(string_of(&line));
                    assert(string_views(lines@) =~= before.push(line@));
                    assert(all.take(i + 1).filter(pred) == all.take(i as int).filter(pred).push(debug_model(*e)));
                    assert(all.take(i + 1).filter(pred).map_values(
                        |m: (Seq<char>, Seq<char>, Gender, bool, bool, Seq<char>)| entity_line(m),
                    ) =~= before.push(line@));
                } else {
                    assert(all.take(i + 1).filter(pred) == all.take(i as int).filter(pred));
                }
                i = i + 1;
            }
            assert(all.take(i as int) =~= all);
            assert(in_subset(all, name@) == all.filter(pred));
            if lines.len() == 0 {
                let mut line = chars_of("No entities in subset '");
                append_chars(&mut line, &name);
                append_str(&mut line, "'.");
                writer.push(string_of(&line));
                assert(string_views(writer@) =~= w.push(line@));
            } else {
                let mut head = chars_of("Entities in subset '");
                append_chars(&mut head, &name);
                append_str(&mut head, "':");
                writer.push(string_of(&head));
                let ghost w1 = string_views(writer@);
                let mut j: usize = 0;
                while j < lines.len()
                    invariant
                        j <= lines.len(),
                        string_views(writer@) == w1 + string_views(lines@).take(j as int),
                    decreases lines.len() - j,
                {
                    let ghost before = string_views(writer@);
                    writer.push(lines[j].clone());
                    assert(string_views(writer@) =~= before.push(lines@[j as int]@));
                    assert(string_views(lines@).take(j + 1) =~= string_views(lines@).take(j as int).push(lines@[j as int]@));
                    j = j + 1;
                }
                assert(string_views(lines@).take(j as int) =~= string_views(lines@));
                assert(string_views(writer@) =~= w + set_lines(args@, Some(*p)));
            }
        },
        None => {
            writer.push(String::from_str("No payload loaded."));
            assert(string_views(writer@) =~= w + seq!["No payload loaded."@]);
        },
    }
}

/// The gender named by a (lower-case) word.
pub open spec fn gender_named(s: Seq<char>) -> Option<Gender> {
    if s == "male"@ {
        Some(Gender::Male)
    } else if s == "female"@ {
        Some(Gender::Female)
    } else if s == "neutral"@ {
        Some(Gender::Neutral)
    } else if s == "plural"@ {
        Some(Gender::Plural)
    } else {
        None
    }
}

/// The entity that an `add subset,id,name,gender,plural,proper` command describes, or the
/// message that rejects it. The gender is read case-insensitively, and "true" (in any
/// ASCII case) means yes for the two flags.
pub open spec fn add_entry(args: Seq<char>) -> Result<(Seq<char>, Seq<char>, Gender, bool, bool, Seq<char>), Seq<char>> {
    let parts = split_on(args, ',').map_values(|p: Seq<char>| trim(p));
    if parts.len() != 6 {
        Err("Invalid add format. Use: add subset,id,name,gender,plural,proper"@)
    } else {
        match gender_named(unicode_lowercase(parts[3])) {
            Some(g) => Ok((parts[1], parts[2], g, eq_ignore_ascii_case(parts[4], "true"@), eq_ignore_ascii_case(parts[5], "true"@), parts[0])),
            None => Err("Invalid gender. Use: male, female, neutral, or plural"@),
        }
    }
}

fn gender_from(s: &Vec<char>) -> (r: Option<Gender>)
    ensures
        r == gender_named(s@),
{
    if chars_eq(s, &chars_of("male")) {
        Some(Gender::Male)
    } else if chars_eq(s, &chars_of("female")) {
        Some(Gender::Female)
    } else if chars_eq(s, &chars_of("neutral")) {
        Some(Gender::Neutral)
    } else if chars_eq(s, &chars_of("plural")) {
        Some(Gender::Plural)
    } else {
        None
    }
}

/// Adds an entity to the loaded payload (`add subset,id,name,gender,plural,proper`) and
/// drops the cached subset list; nothing changes when no payload is loaded.
pub fn handle_add(args: &str, payload: &mut Option<EntitiesPayload>, cached_subsets: &mut Option<Vec<String>>, writer: &mut Vec<String>)
    ensures
        match add_entry(args@) {
            Err(msg) => *final(payload) == *old(payload) && *final(cached_subsets) == *old(cached_subsets)
                && string_views(final(writer)@) == string_views(old(writer)@).push(msg),
            Ok(m) => match *old(payload) {
                Some(p) => *final(payload) matches Some(q) && q.subsets == p.subsets
                    && entity_models(q.entities@) == entity_models(p.entities@).push(m)
                    && (*final(cached_subsets)).is_none()
                    && string_views(final(writer)@) == string_views(old(writer)@).push("Entity added."@),
                None => (*final(payload)).is_none() && *final(cached_subsets) == *old(cached_subsets)
                    && final(writer)@ == old(writer)@,
            },
        },
{
    let ghost w = string_views(writer@);
    let pieces = split_chars(&chars_of(args), ',');
    let mut parts: Vec<Vec<char>> = Vec::new();
    let ghost spec_parts = split_on(args@, ',').map_values(|p: Seq<char>| trim(p));
    let mut i: usize = 0;
    while i < pieces.len()
        invariant
            i <= pieces.len(),
            views(pieces@) == split_on(args@, ','),
            spec_parts == split_on(args@, ',').map_values(|p: Seq<char>| trim(p)),
            views(parts@) == spec_parts.take(i as int),
        decreases pieces.len() - i,
    {
        let ghost before = views(parts@);
        assert(spec_parts[i as int] == trim(views(pieces@)[i as int]));
        parts.push(chars_trim(&pieces[i]));
        assert(spec_parts.take(i + 1) =~= spec_parts.take(i as int).push(spec_parts[i as int]));
        assert(views(parts@) =~= spec_parts.take(i + 1));
        i = i + 1;
    }
    assert(spec_parts.take(i as int) =~= spec_parts);
    if parts.len() != 6 {
        writer.push(String::from_str("Invalid add format. Use: add subset,id,name,gender,plural,proper"));
        assert(string_views(writer@) =~= w.push(string_views(writer@).last()));
        return;
    }
    let lower = chars_of(str_to_lowercase(string_of(&parts[3]).as_str()).as_str());
    let gender = match gender_from(&lower) {
        Some(g) => g,
        None => {
            writer.push(String::from_str("Invalid gender. Use: male, female, neutral, or plural"));
            assert(string_views(writer@) =~= w.push(string_views(writer@).last()));
            return;
        },
    };
    let t = chars_of("true");
    let is_plural = chars_eq_ignore_ascii_case(&parts[4], &t);
    let is_proper_noun = chars_eq_ignore_ascii_case(&parts[5], &t);
    match payload {
        Some(p) => {
            let ghost before = entity_models(p.entities@);
            p.entities.push(DebugEntity {
                id: string_of(&parts[1]),
                name: string_of(&parts[2]),
                gender,
                is_plural,
                is_proper_noun,
                subset: string_of(&parts[0]),
            });
            assert(entity_models(p.entities@) =~= before.push((parts@[1]@, parts@[2]@, gender, is_plural, is_proper_noun, parts@[0]@)));
            *cached_subsets = None;
            writer.push(String::from_str("Entity added."));
            assert(string_views(writer@) =~= w.push("Entity added."@));
        },
        None => {},
    }
}

/// Removes the entities with an id from the loaded payload and, when one was removed,
/// drops the cached subset list; nothing changes when no payload is loaded.
pub fn handle_remove(args: &str, payload: &mut Option<EntitiesPayload>, cached_subsets: &mut Option<Vec<String>>, writer: &mut Vec<String>)
    ensures
        match *old(payload) {
            Some(p) => {
                let id = trim(args@);
                let kept = entity_models(p.entities@).filter(
                    |m: (Seq<char>, Seq<char>, Gender, bool, bool, Seq<char>)| m.0 != id,
                );
                &&& *final(payload) matches Some(q)
                &&& q.subsets == p.subsets
                &&& entity_models(q.entities@) == kept
                &&& if kept.len() < p.entities@.len() {
                    (*final(cached_subsets)).is_none() && string_views(final(writer)@)
                        == string_views(old(writer)@).push("Entity '"@ + id + "' removed."@)
                } else {
                    *final(cached_subsets) == *old(cached_subsets) && string_views(final(writer)@)
                        == string_views(old(writer)@).push("Entity '"@ + id + "' not found."@)
                }
            },
            None => (*final(payload)).is_none() && *final(cached_subsets) == *old(cached_subsets)
                && final(writer)@ == old(writer)@,
        },
{
    let ghost w = string_views(writer@);
    let id = chars_trim(&chars_of(args));
    match payload {
        Some(p) => {
            let ghost all = entity_models(p.entities@);
            let ghost pred = |m: (Seq<char>, Seq<char>, Gender, bool, bool, Seq<char>)| m.0 != id@;
            let initial_len = p.entities.len();
            let mut rest: Vec<DebugEntity> = Vec::new();
            std::mem::swap(&mut rest, &mut p.entities);
            let mut kept: Vec<DebugEntity> = Vec::new();
            let ghost n = rest.len();
            assert(all.take(0).filter(pred) =~= Seq::<(Seq<char>, Seq<char>, Gender, bool, bool, Seq<char>)>::empty());
            while rest.len() > 0
                invariant
                    rest.len() <= n,
                    n == all.len(),
                    entity_models(rest@) == all.skip(n - rest.len()),
                    entity_models(kept@) == all.take(n - rest.len()).filter(pred),
                    pred == (|m: (Seq<char>, Seq<char>, Gender, bool, bool, Seq<char>)| m.0 != id@),
                decreases rest.len(),
            {
                let ghost done = n - rest.len();
                let ghost old_rest = rest@;
                assert(entity_models(old_rest)[0] == all.skip(done)[0]);
                let e = rest.remove(0);
                assert(debug_model(e) == all[done]);
                assert(rest@ =~= old_rest.drop_first());
                assert(entity_models(rest@) =~= entity_models(old_rest).drop_first());
                assert(all.skip(done).drop_first() =~= all.skip(done + 1));
                assert(entity_models(rest@) =~= all.skip(done + 1));
                assert(all.take(done + 1).drop_last() =~= all.take(done));
                reveal_with_fuel(Seq::<_>::filter, 1);
                let ghost before = entity_models(kept@);
                if !chars_eq(&chars_of(e.id.as_str()), &id) {
                    kept.push(e);
                    assert(entity_models(kept@) =~= before.push(all[done]));
                } else {
                    assert(entity_models(kept@) =~= before);
                }
            }
            assert(all.take(n as int) =~= all);
            assert(entity_models(kept@) == all.filter(pred));
            p.entities = kept;
            assert(entity_models(p.entities@) == all.filter(pred));
            assert(all.len() == initial_len);
            assert(pred =~= (|m: (Seq<char>, Seq<char>, Gender, bool, bool, Seq<char>)| m.0 != trim(args@)));
            proof {
                all.lemma_filter_len(pred);
            }
            if p.entities.len() < initial_len {
                *cached_subsets = None;
                let mut line = chars_of("Entity '");
                append_chars(&mut line, &id);
                append_str(&mut line, "' removed.");
                writer.push(string_of(&line));
                assert(string_views(writer@) =~= w.push(line@));
            } else {
                let mut line = chars_of("Entity '");
                append_chars(&mut line, &id);
                append_str(&mut line, "' not found.");
                writer.push(string_of(&line));
                assert(string_views(writer@) =~= w.push(line@));
            }
        },
        None => {},
    }
}

/// Whether the texts are in strictly increasing order.
pub open spec fn strictly_sorted(s: Seq<Seq<char>>) -> bool {
    forall|i: int, j: int| 0 <= i < j < s.len() ==> text_lt(#[trigger] s[i], #[trigger] s[j])
}

/// What a `sets` command lists for the subset names.
pub open spec fn sets_lines(names: Seq<Seq<char>>) -> Seq<Seq<char>> {
    if names.len() == 0 {
        seq!["No subsets defined."@]
    } else {
        seq!["Subsets:"@] + names.map_values(|n: Seq<char>| "  "@ + n)
    }
}

/// Inserts a text into a strictly sorted list, unless it is already there.
fn insert_sorted(v: &mut Vec<String>, s: String)
    requires
        strictly_sorted(string_views(old(v)@)),
    ensures
        strictly_sorted(string_views(final(v)@)),
        forall|x: Seq<char>| string_views(final(v)@).contains(x) <==> (string_views(old(v)@).contains(x) || x == s@),
{
    let ghost before = string_views(v@);
    let sv = chars_of(s.as_str());
    let mut i: usize = 0;
    while i < v.len()
        invariant
            i <= v.len(),
            before == string_views(v@),
            sv@ == s@,
            forall|j: int| 0 <= j < i ==> text_lt(#[trigger] before[j], s@),
        ensures
            i <= v.len(),
            before == string_views(v@),
            sv@ == s@,
            forall|j: int| 0 <= j < i ==> text_lt(#[trigger] before[j], s@),
            i < v.len() ==> !text_lt(before[i as int], s@),
        decreases v.len() - i,
    {
        let cur = chars_of(v[i].as_str());
        if !chars_lt(&cur, &sv) {
            break;
        }
        i = i + 1;
    }
    if i < v.len() && chars_eq(&chars_of(v[i].as_str()), &sv) {
        assert(before[i as int] == s@);
        return;
    }
    proof {
        if i < v.len() {
            lemma_text_lt_total(before[i as int], s@);
            assert(text_lt(s@, before[i as int]));
            assert forall|j: int| i <= j < before.len() implies text_lt(s@, #[trigger] before[j]) by {
                if j > i {
                    lemma_text_lt_trans(s@, before[i as int], before[j]);
                }
            }
        }
    }
    v.insert(i, s);
    let ghost after = string_views(v@);
    assert(after =~= before.insert(i as int, sv@));
    proof {
        assert forall|a: int, b: int| 0 <= a < b < after.len() implies text_lt(#[trigger] after[a], #[trigger] after[b]) by {
            if b < i {
                assert(after[a] == before[a] && after[b] == before[b]);
            } else if b == i {
                assert(after[a] == before[a]);
            } else if a < i {
                assert(after[a] == before[a] && after[b] == before[b - 1]);
                if b - 1 >= i {
                    lemma_text_lt_trans(before[a], s@, before[b - 1]);
                }
            } else if a == i {
                assert(after[b] == before[b - 1]);
            } else {
                assert(after[a] == before[a - 1] && after[b] == before[b - 1]);
            }
        }
        assert forall|x: Seq<char>| after.contains(x) <==> (before.contains(x) || x == s@) by {
            if after.contains(x) {
                let k = choose|k: int| 0 <= k < after.len() && #[trigger] after[k] == x;
                if k < i {
                    assert(before[k] == x);
                } else if k > i {
                    assert(before[k - 1] == x);
                }
            }
            if before.contains(x) {
                let k = choose|k: int| 0 <= k < before.len() && #[trigger] before[k] == x;
                if k < i {
                    assert(after[k] == x);
                } else {
                    assert(after[k + 1] == x);
                }
            }
            if x == s@ {
                assert(after[i as int] == x);
            }
        }
    }
}

/// The names of the subsets of a payload, configured or used by an entity, sorted.
fn sorted_subset_names(p: &EntitiesPayload) -> (r: Vec<String>)
    ensures
        strictly_sorted(string_views(r@)),
        forall|x: Seq<char>| string_views(r@).contains(x) <==> payload_has_subset(*p, x),
{
    let mut sorted: Vec<String> = Vec::new();
    let n = p.subsets.len();
    let mut i: usize = 0;
    while i < n
        invariant
            i <= n,
            n == p.subsets.key_order().len(),
            forall|k: Seq<char>| p.subsets.map().contains_key(k) <==> p.subsets.key_order().contains(k),
            strictly_sorted(string_views(sorted@)),
            forall|x: Seq<char>| string_views(sorted@).contains(x) <==> p.subsets.key_order().take(i as int).contains(x),
        decreases n - i,
    {
        let (k, _) = p.subsets.entry_at(i);
        let ghost ks = p.subsets.key_order();
        insert_sorted(&mut sorted, k.clone());
        proof {
            assert forall|x: Seq<char>| ks.take(i + 1).contains(x) <==> (ks.take(i as int).contains(x) || x == ks[i as int]) by {
                if ks.take(i + 1).contains(x) {
                    let j = choose|j: int| 0 <= j < i + 1 && #[trigger] ks.take(i + 1)[j] == x;
                    if j < i {
                        assert(ks.take(i as int)[j] == x);
                    }
                }
                if ks.take(i as int).contains(x) {
                    let j = choose|j: int| 0 <= j < i && #[trigger] ks.take(i as int)[j] == x;
                    assert(ks.take(i + 1)[j] == x);
                }
                if x == ks[i as int] {
                    assert(ks.take(i + 1)[i as int] == x);
                }
            }
        }
        i = i + 1;
    }
    assert(p.subsets.key_order().take(n as int) =~= p.subsets.key_order());
    let mut j: usize = 0;
    while j < p.entities.len()
        invariant
            j <= p.entities.len(),
            strictly_sorted(string_views(sorted@)),
            forall|x: Seq<char>| string_views(sorted@).contains(x) <==> (p.subsets.map().contains_key(x)
                || exists|k: int| 0 <= k < j && (#[trigger] p.entities@[k]).subset@ == x),
        decreases p.entities.len() - j,
    {
        insert_sorted(&mut sorted, p.entities[j].subset.clone());
        proof {
            assert forall|x: Seq<char>| #[trigger] string_views(sorted@).contains(x) <==> (p.subsets.map().contains_key(x)
                || exists|k: int| 0 <= k < j + 1 && (#[trigger] p.entities@[k]).subset@ == x) by {
                if x == p.entities@[j as int].subset@ {
                    assert(p.entities@[j as int].subset@ == x);
                }
            }
        }
        j = j + 1;
    }
    sorted
}

/// Lists every subset name, sorted; the list is computed once and cached until the entities
/// change.
pub fn handle_sets(payload: Option<&EntitiesPayload>, cached_subsets: &mut Option<Vec<String>>, writer: &mut Vec<String>)
    ensures
        match payload {
            Some(p) => *final(cached_subsets) matches Some(v) && (match *old(cached_subsets) {
                Some(o) => v == o,
                None => strictly_sorted(string_views(v@)) && forall|x: Seq<char>|
                    string_views(v@).contains(x) <==> payload_has_subset(*p, x),
            }) && string_views(final(writer)@) == string_views(old(writer)@) + sets_lines(string_views(v@)),
            None => *final(cached_subsets) == *old(cached_subsets) && string_views(final(writer)@)
                == string_views(old(writer)@).push("No payload loaded."@),
        },
{
    let ghost w = string_views(writer@);
    match payload {
        Some(p) => {
            if cached_subsets.is_none() {
                *cached_subsets = Some(sorted_subset_names(p));
            }
            match cached_subsets {
                Some(sorted) => {
                    let ghost names = string_views(sorted@);
                    if sorted.len() == 0 {
                        writer.push(String::from_str("No subsets defined."));
                        assert(string_views(writer@) =~= w + sets_lines(names));
                    } else {
                        writer.push(String::from_str("Subsets:"));
                        let ghost w1 = string_views(writer@);
                        let mut i: usize = 0;
                        while i < sorted.len()
                            invariant
                                i <= sorted.len(),
                                names == string_views(sorted@),
                                string_views(writer@) == w1 + names.map_values(|n: Seq<char>| "  "@ + n).take(i as int),
                            decreases sorted.len() - i,
                        {
                            let mut line = chars_of("  ");
                            append_str(&mut line, sorted[i].as_str());
                            let ghost before = string_views(writer@);
                            writer.push(string_of(&line));
                            assert(string_views(writer@) =~= before.push(line@));
                            assert(names.map_values(|n: Seq<char>| "  "@ + n).take(i + 1) =~= names.map_values(|n: Seq<char>| "  "@ + n).take(i as int).push("  "@ + names[i as int]));
                            i = i + 1;
                        }
                        assert(names.map_values(|n: Seq<char>| "  "@ + n).take(i as int) =~= names.map_values(|n: Seq<char>| "  "@ + n));
                        assert(string_views(writer@) =~= w + sets_lines(names));
                    }
                },
                None => {},
            }
        },
        None => {
            writer.push(String::from_str("No payload loaded."));
            assert(string_views(writer@) =~= w.push("No payload loaded."@));
        },
    }
}

} // verus!

verus! {

// ---------------------------------------------------------------------------
// The interactive prompt
// ---------------------------------------------------------------------------

/// A line typed at the interactive prompt, read as a command.
#[derive(Debug, PartialEq, Eq)]
pub enum Command {
    /// An empty line: nothing to do.
    Empty,
    /// `exit` or `quit`.
    Exit,
    /// `help`.
    Help,
    /// `bindings`.
    Bindings,
    /// `bind <args>`.
    Bind(String),
    /// `unbind <args>`.
    Unbind(String),
    /// `sets`.
    Sets,
    /// `set <args>`.
    ShowSet(String),
    /// `add <args>`.
    Add(String),
    /// `remove <args>`.
    Remove(String),
    /// Anything else: a template to evaluate.
    Template(String),
}

/// The plain-value model of a command.
pub enum CommandModel {
    Empty,
    Exit,
    Help,
    Bindings,
    Bind(Seq<char>),
    Unbind(Seq<char>),
    Sets,
    ShowSet(Seq<char>),
    Add(Seq<char>),
    Remove(Seq<char>),
    Template(Seq<char>),
}

/// The model of a command.
pub open spec fn command_model(c: Command) -> CommandModel {
    match c {
        Command::Empty => CommandModel::Empty,
        Command::Exit => CommandModel::Exit,
        Command::Help => CommandModel::Help,
        Command::Bindings => CommandModel::Bindings,
        Command::Bind(a) => CommandModel::Bind(a@),
        Command::Unbind(a) => CommandModel::Unbind(a@),
        Command::Sets => CommandModel::Sets,
        Command::ShowSet(a) => CommandModel::ShowSet(a@),
        Command::Add(a) => CommandModel::Add(a@),
        Command::Remove(a) => CommandModel::Remove(a@),
        Command::Template(t) => CommandModel::Template(t@),
    }
}

/// The command a trimmed line stands for, tested in this order: empty; `exit` or `quit`,
/// `help` and `bindings` in any case; the prefix `bind `, then `unbind `; `sets` in any
/// case; the prefixes `set `, `add ` and `remove `, each followed by its arguments; and
/// otherwise a template.
pub open spec fn command_of(t: Seq<char>) -> CommandModel {
    if t.len() == 0 {
        CommandModel::Empty
    } else if eq_ignore_ascii_case(t, "exit"@) || eq_ignore_ascii_case(t, "quit"@) {
        CommandModel::Exit
    } else if eq_ignore_ascii_case(t, "help"@) {
        CommandModel::Help
    } else if eq_ignore_ascii_case(t, "bindings"@) {
        CommandModel::Bindings
    } else if starts_with(t, "bind "@) {
        CommandModel::Bind(t.skip("bind "@.len() as int))
    } else if starts_with(t, "unbind "@) {
        CommandModel::Unbind(t.skip("unbind "@.len() as int))
    } else if eq_ignore_ascii_case(t, "sets"@) {
        CommandModel::Sets
    } else if starts_with(t, "set "@) {
        CommandModel::ShowSet(t.skip("set "@.len() as int))
    } else if starts_with(t, "add "@) {
        CommandModel::Add(t.skip("add "@.len() as int))
    } else if starts_with(t, "remove "@) {
        CommandModel::Remove(t.skip("remove "@.len() as int))
    } else {
        CommandModel::Template(t)
    }
}

fn rest_after(t: &Vec<char>, prefix: &str) -> (r: String)
    requires
        starts_with(t@, prefix@),
    ensures
        r@ == t@.skip(prefix@.len() as int),
{
    let p = chars_of(prefix);
    let rest = subrange_of(t, p.len(), t.len());
    assert(rest@ =~= t@.skip(prefix@.len() as int));
    string_of(&rest)
}

/// Reads a line typed at the prompt as a command (see `command_of`), after trimming it.
pub fn classify_command(line: &str) -> (r: Command)
    ensures
        command_model(r) == command_of(trim(line@)),
{
    let t = chars_trim(&chars_of(line));
    let ts = string_of(&t);
    if t.len() == 0 {
        Command::Empty
    } else if str_eq_ignore_ascii_case(ts.as_str(), "exit") || str_eq_ignore_ascii_case(ts.as_str(), "quit") {
        Command::Exit
    } else if str_eq_ignore_ascii_case(ts.as_str(), "help") {
        Command::Help
    } else if str_eq_ignore_ascii_case(ts.as_str(), "bindings") {
        Command::Bindings
    } else if chars_starts_with_str(&t, "bind ") {
        Command::Bind(rest_after(&t, "bind "))
    } else if chars_starts_with_str(&t, "unbind ") {
        Command::Unbind(rest_after(&t, "unbind "))
    } else if str_eq_ignore_ascii_case(ts.as_str(), "sets") {
        Command::Sets
    } else if chars_starts_with_str(&t, "set ") {
        Command::ShowSet(rest_after(&t, "set "))
    } else if chars_starts_with_str(&t, "add ") {
        Command::Add(rest_after(&t, "add "))
    } else if chars_starts_with_str(&t, "remove ") {
        Command::Remove(rest_after(&t, "remove "))
    } else {
        Command::Template(ts)
    }
}

/// Whether a subset may be bound: any subset when no payload is loaded, else one that the
/// payload has.
pub open spec fn subset_allowed(payload: Option<EntitiesPayload>, subset: Seq<char>) -> bool {
    match payload {
        Some(p) => payload_has_subset(p, subset),
        None => true,
    }
}

/// One default binding: `key` is bound to `subset` when it is unbound and the subset is
/// allowed.
pub open spec fn default_binding(b: Map<Seq<char>, Seq<char>>, key: Seq<char>, subset: Seq<char>, payload: Option<EntitiesPayload>) -> Map<Seq<char>, Seq<char>> {
    if !b.contains_key(key) && subset_allowed(payload, subset) {
        b.insert(key, subset)
    } else {
        b
    }
}

/// The bindings with the defaults applied: "source" and "target" to "actors", "weapon"
/// and "item" to "objects".
pub open spec fn with_defaults(b: Map<Seq<char>, Seq<char>>, payload: Option<EntitiesPayload>) -> Map<Seq<char>, Seq<char>> {
    default_binding(
        default_binding(
            default_binding(default_binding(b, "source"@, "actors"@, payload), "target"@, "actors"@, payload),
            "weapon"@,
            "objects"@,
            payload,
        ),
        "item"@,
        "objects"@,
        payload,
    )
}

fn apply_default(b: &mut KeyMap<String>, key: &str, subset: &str, payload: Option<&EntitiesPayload>)
    ensures
        string_map(*final(b)) == default_binding(string_map(*old(b)), key@, subset@, match payload {
            Some(p) => Some(*p),
            None => None,
        }),
{
    if !b.contains_key(key) {
        let allowed = match payload {
            Some(p) => p.has_subset(subset),
            None => true,
        };
        if allowed {
            let ghost before = string_map(*b);
            b.insert(String::from_str(key), String::from_str(subset));
            assert(string_map(*b) =~= before.insert(key@, subset@));
        }
    }
}

/// Binds the common template keys to their default subsets where they are unbound and the
/// subset is allowed (see `with_defaults`).
pub fn apply_default_bindings(b: &mut KeyMap<String>, payload: Option<&EntitiesPayload>)
    ensures
        string_map(*final(b)) == with_defaults(string_map(*old(b)), match payload {
            Some(p) => Some(*p),
            None => None,
        }),
{
    apply_default(b, "source", "actors", payload);
    apply_default(b, "target", "actors", payload);
    apply_default(b, "weapon", "objects", payload);
    apply_default(b, "item", "objects", payload);
}

/// The template keys that no binding covers yet, in order.
pub open spec fn unbound_keys_of(keys: Seq<Seq<char>>, b: Map<Seq<char>, Seq<char>>) -> Seq<Seq<char>> {
    keys.filter(|k: Seq<char>| !b.contains_key(k))
}

/// Lists the template keys that no binding covers yet (see `unbound_keys_of`).
pub fn unbound_keys(keys: &Vec<String>, b: &KeyMap<String>) -> (r: Vec<String>)
    ensures
        string_views(r@) == unbound_keys_of(string_views(keys@), string_map(*b)),
{
    let ghost ks = string_views(keys@);
    let ghost m = string_map(*b);
    let mut r: Vec<String> = Vec::new();
    let mut i: usize = 0;
    assert(ks.take(0) =~= Seq::<Seq<char>>::empty());
    while i < keys.len()
        invariant
            i <= keys.len(),
            ks == string_views(keys@),
            m == string_map(*b),
            string_views(r@) == unbound_keys_of(ks.take(i as int), m),
        decreases keys.len() - i,
    {
        let ghost before = string_views(r@);
        assert(ks.take(i + 1) =~= ks.take(i as int).push(ks[i as int]));
        reveal(Seq::filter);
        assert(ks.take(i + 1).drop_last() =~= ks.take(i as int));
        if !b.contains_key(keys[i].as_str()) {
            r.push(keys[i].clone());
            assert(string_views(r@) =~= before.push(keys@[i as int]@));
        }
        i = i + 1;
    }
    assert(ks.take(i as int) =~= ks);
    r
}

/// What an answer to "Assign subset for tag" gives: the trimmed answer, or "actors" for an
/// empty one; an error line when that subset is not allowed.
pub open spec fn subset_answer_of(answer: Seq<char>, payload: Option<EntitiesPayload>) -> Result<Seq<char>, Seq<char>> {
    let t = trim(answer);
    let subset = if t.len() == 0 { "actors"@ } else { t };
    if subset_allowed(payload, subset) {
        Ok(subset)
    } else {
        Err("Error: Subset '"@ + subset + "' does not exist. Try again."@)
    }
}

/// Reads an answer to "Assign subset for tag" (see `subset_answer_of`).
pub fn subset_answer(answer: &str, payload: Option<&EntitiesPayload>) -> (r: Result<String, String>)
    ensures
        subset_answer_of(answer@, match payload {
            Some(p) => Some(*p),
            None => None,
        }) == (match r {
            Ok(s) => Ok(s@),
            Err(e) => Err(e@),
        }),
{
    let t = chars_trim(&chars_of(answer));
    let subset = if t.len() == 0 { String::from_str("actors") } else { string_of(&t) };
    let allowed = match payload {
        Some(p) => p.has_subset(subset.as_str()),
        None => true,
    };
    if allowed {
        Ok(subset)
    } else {
        let mut line = chars_of("Error: Subset '");
        append_str(&mut line, subset.as_str());
        append_str(&mut line, "' does not exist. Try again.");
        Err(string_of(&line))
    }
}

} // verus!
