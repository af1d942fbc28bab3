//! The configuration: the preset table and the jobs, and the resolution
//! that turns every job into a fully populated one.

use crate::args::{split, split_args, Invocation, InvocationView};
use crate::document::{find, lemma_find_push, parsed_document, Node};
use crate::error::{ConfigError, ErrorKind, ErrorView};
use crate::inherit::{
    chain, inherit, inherit_fill, lemma_inherit_chain_order, lemma_inherit_circle,
    lemma_inherit_is_one_merge,
    lemma_inherit_keeps, lemma_inherit_nearest_wins, lemma_inherit_no_thread_count,
    presets_view, Presets,
};
use crate::scheme::{clone_list, lemma_complement_from_empty, Scheme, SchemeView};
use vstd::hash_map::StringHashMap;
use vstd::prelude::*;

verus! {

/// The presets by name and the jobs in the order in which they were asked
/// for.
pub struct Config {
    pub presets: StringHashMap<Scheme>,
    pub orders: Vec<Scheme>,
}

/// A `Config` with its records as views.
pub struct ConfigView {
    pub presets: Presets,
    pub orders: Seq<SchemeView>,
}

impl View for Config {
    type V = ConfigView;

    open spec fn view(&self) -> ConfigView {
        ConfigView {
            presets: presets_view(self.presets),
            orders: self.orders@.map_values(|order: Scheme| order@),
        }
    }
}

/// The last layer of every job: eleven fixed values, and with them the
/// input items and the output path of the command line. It is no preset
/// and has no name; every other attribute is absent in it.
pub open spec fn built_in(invocation: InvocationView) -> SchemeView {
    SchemeView {
        preset_name: None,
        show_progress: Some(true),
        show_info: Some(true),
        threads_count: Some(1i32),
        simulate_terminal: Some(false),
        repeat_count: Some(1i32),
        stdout_type: Some("ignore"@),
        stdout_file_path: None,
        stderr_type: Some("ignore"@),
        stderr_file_path: None,
        program: None,
        args_template: Some(Seq::empty()),
        args_switches: Some(Seq::empty()),
        input_list: if invocation.input_list.len() == 0 {
            None
        } else {
            Some(invocation.input_list)
        },
        input_dir_path: None,
        input_dir_deep: None,
        output_file_path: invocation.output_file_path,
        output_file_overwrite: Some(true),
        output_dir_path: None,
        output_dir_keep_struct: Some(false),
        output_file_name_extension: None,
        output_file_name_prefix: None,
        output_file_name_suffix: None,
    }
}

/// The job after both inheritance passes: first along the chain of the
/// preset that the job names, if it names one, then along the chain of the
/// preset called `default`.
pub open spec fn inherited(job: SchemeView, presets: Presets) -> SchemeView {
    let own = match job.preset_name {
        Some(name) => inherit(job, name, presets, 1),
        None => job,
    };
    inherit(own, "default"@, presets, 1)
}

/// The job after both inheritance passes and the last layer `last`.
pub open spec fn resolve_with(job: SchemeView, presets: Presets, last: SchemeView) -> SchemeView {
    inherited(job, presets).complement(last)
}

/// The fully resolved job: its own values first, then those of its preset
/// chain, then those of the `default` chain, then the built-in values with
/// the command line's input items and output path.
pub open spec fn resolve(job: SchemeView, presets: Presets, invocation: InvocationView) -> SchemeView {
    resolve_with(job, presets, built_in(invocation))
}

impl ConfigView {
    /// The presets that the entries of a document's `presets` table
    /// declare, each under its key.
    pub open spec fn declared_presets(entries: Seq<(String, Node)>) -> Presets {
        Map::new(
            |name: Seq<char>| find(entries, name) is Some,
            |name: Seq<char>| SchemeView::declared(find(entries, name).unwrap()),
        )
    }

    /// The jobs that the items of a document's `orders` array declare, in
    /// their order.
    pub open spec fn declared_orders(items: Seq<Node>) -> Seq<SchemeView> {
        items.map_values(|item: Node| SchemeView::declared(item))
    }

    /// The configuration that the document `doc` declares, before any
    /// resolution: the presets of its table `presets` and the jobs of its
    /// array `orders`. There is none where `presets` is missing or is no
    /// table; and there are no jobs where `orders` is missing or is no
    /// array.
    pub open spec fn declared(doc: Node) -> Option<ConfigView> {
        match doc.at("presets"@) {
            Some(Node::Table(entries)) => Some(
                ConfigView {
                    presets: Self::declared_presets(entries@),
                    orders: match doc.at("orders"@) {
                        Some(Node::Array(items)) => Self::declared_orders(items@),
                        _ => Seq::empty(),
                    },
                },
            ),
            _ => None,
        }
    }

    /// What loading the document `doc` under the command line `args`
    /// gives: the resolved configuration, or the failure.
    pub open spec fn loaded(doc: Node, args: Seq<Seq<char>>) -> Result<ConfigView, ErrorView> {
        match Self::declared(doc) {
            Some(cfg) => cfg.fixed(args),
            None => Err(ErrorView::illegal("presets not provided"@)),
        }
    }

    /// The configuration with every job resolved.
    pub open spec fn resolved(self, invocation: InvocationView) -> ConfigView {
        ConfigView {
            presets: self.presets,
            orders: self.orders.map_values(
                |job: SchemeView| resolve(job, self.presets, invocation),
            ),
        }
    }

    /// What resolution under the command line `args` gives: the resolved
    /// configuration, or the failure. The command line is judged first; a
    /// configuration without jobs is refused after it.
    pub open spec fn fixed(self, args: Seq<Seq<char>>) -> Result<ConfigView, ErrorView> {
        match split(args) {
            Err(refusal) => Err(ErrorView::illegal(refusal.message())),
            Ok(invocation) => if self.orders.len() == 0 {
                Err(ErrorView::illegal("order not provided"@))
            } else {
                Ok(self.resolved(invocation))
            },
        }
    }
}

/// The built-in layer for the command line `invocation`.
pub fn built_in_scheme(invocation: &Invocation) -> (scheme: Scheme)
    ensures
        scheme@ == built_in(invocation@),
{
    let input_list = if invocation.input_list.len() == 0 {
        None
    } else {
        Some(clone_list(&invocation.input_list))
    };
    let output_file_path = match &invocation.output_file_path {
        Some(path) => Some(path.clone()),
        None => None,
    };
    Scheme {
        preset_name: None,
        show_progress: Some(true),
        show_info: Some(true),
        threads_count: Some(1),
        simulate_terminal: Some(false),
        repeat_count: Some(1),
        stdout_type: Some("ignore".to_owned()),
        stdout_file_path: None,
        stderr_type: Some("ignore".to_owned()),
        stderr_file_path: None,
        program: None,
        args_template: Some(String::new()),
        args_switches: Some(String::new()),
        input_list,
        input_dir_path: None,
        input_dir_deep: None,
        output_file_path,
        output_file_overwrite: Some(true),
        output_dir_path: None,
        output_dir_keep_struct: Some(false),
        output_file_name_extension: None,
        output_file_name_prefix: None,
        output_file_name_suffix: None,
    }
}

/// Resolves one job against the preset table, with `last` as the layer
/// that comes after all presets.
pub fn resolve_order(order: &mut Scheme, presets: &StringHashMap<Scheme>, last: &Scheme)
    ensures
        final(order)@ == resolve_with(old(order)@, presets_view(*presets), last@),
{
    let first_preset_name = match &order.preset_name {
        Some(preset_name) => Some(preset_name.clone()),
        None => None,
    };
    if let Some(first_preset_name) = first_preset_name {
        inherit_fill(order, first_preset_name.as_str(), presets, 1);
    }
    inherit_fill(order, "default", presets, 1);
    order.complement(last);
}

/// One more entry of a `presets` table adds its preset under its key,
/// unless an earlier entry has that key.
pub proof fn lemma_declared_presets_push(entries: Seq<(String, Node)>, entry: (String, Node))
    ensures
        ConfigView::declared_presets(entries.push(entry)) == if find(entries, entry.0@) is Some {
            ConfigView::declared_presets(entries)
        } else {
            ConfigView::declared_presets(entries).insert(entry.0@, SchemeView::declared(entry.1))
        },
{
    let longer = ConfigView::declared_presets(entries.push(entry));
    let wanted = if find(entries, entry.0@) is Some {
        ConfigView::declared_presets(entries)
    } else {
        ConfigView::declared_presets(entries).insert(entry.0@, SchemeView::declared(entry.1))
    };
    assert forall|key: Seq<char>|
        #![trigger longer.dom().contains(key)]
        #![trigger wanted.dom().contains(key)]
        longer.dom().contains(key) == wanted.dom().contains(key) && (longer.dom().contains(key)
            ==> longer[key] == wanted[key]) by {
        lemma_find_push(entries, entry, key);
    }
    assert(longer =~= wanted);
}

/// Whether the result `r` of loading is the `expected` one.
pub open spec fn is_outcome(r: Result<Config, ConfigError>, expected: Result<ConfigView, ErrorView>) -> bool {
    match expected {
        Ok(cfg) => r matches Ok(got) && got@ == cfg,
        Err(failure) => r matches Err(e) && e@ == failure,
    }
}

/// Whether `r` is what loading the configuration text `text` under the
/// command line `args` gives: a `ConfigTomlIllegal` failure that carries
/// the parser's own where the text is no TOML document, and else what
/// loading the document gives.
pub open spec fn is_loaded_from(
    r: Result<Config, ConfigError>,
    text: Seq<char>,
    args: Seq<Seq<char>>,
) -> bool {
    match parsed_document(text) {
        Some(doc) => is_outcome(r, ConfigView::loaded(doc, args)),
        None => r matches Err(e) && e.kind == ErrorKind::ConfigTomlIllegal && e.inner is Some
            && e.message is None,
    }
}

/// A configuration text with five presets and one job.
pub const SAMPLE: &'static str = r#"
            [global]
            message.progress = true
            message.info = true
            webui.ip = '127.0.0.1'
            webui.port = 9090

            [presets.default]
            threads.count = 4
            threads.stop_painc = false
            process.simulate_terminal = false
            repeat.count = 1
            stdio.stdout.type = 'file' # ignore | normal | file
            stdio.stdout.file.path = './target/test-stdout.log'
            stdio.stderr.type = 'file'
            stdio.stderr.file.path = './target/test-stderr.log'

            [presets.cwebp]
            program = 'cwebp.exe'
            args.template = '{args.switches} {input.file_path} -o {output.file_path}'
            args.switches = '-m 6'
            output.file_name.extension = 'webp'

            [presets.cwebp_lossless]
            preset = 'cwebp'
            args.switches = '-lossless -m 6 -noalpha -sharp_yuv -metadata none'

            [presets.clock]
            repeat.count = 10
            program = 'cmd'
            args.template = '/c echo {args.switches} ; {repeat.index} ; {repeat.position} && timeout /t 1 > nul'
            args.switches = 'time: %time%'
            threads.count = 1
            stdio.stdout.type = 'normal'
            stdio.stderr.type = 'normal'

            [presets.timeout]
            program = 'timeout'
            args.template = '{args.switches}'
            args.switches = '/t 5'
            threads.count = 1
            stdio.stdout.type = 'normal'
            stdio.stderr.type = 'normal'

            [[orders]]
            preset = 'cwebp_lossless'
            program = 'D:\Library\libwebp\libwebp_1.0.0\bin\cwebp.exe'
            input.dir.path = 'D:\Temp\foundry_test\source'
            output.dir.path = 'D:\Temp\foundry_test\target'
            output.file_name.prefix = 'out_'
            output.file_name.suffix = '_out'
            "#;

impl Config {
    /// A configuration without presets and without jobs.
    pub fn empty() -> (cfg: Config)
        ensures
            cfg.presets@ == Map::<Seq<char>, Scheme>::empty(),
            cfg.orders@ == Seq::<Scheme>::empty(),
    {
        Config { presets: StringHashMap::new(), orders: Vec::new() }
    }

    /// Builds the configuration that the document `doc` declares and
    /// resolves its jobs under the command line `args`. A document whose
    /// `presets` is missing or is no table is refused; one whose `orders`
    /// is missing or is no array has no jobs, and is refused for that.
    pub fn from_document(doc: &Node, args: &Vec<String>) -> (r: Result<Config, ConfigError>)
        ensures
            is_outcome(r, ConfigView::loaded(*doc, args.deep_view())),
    {
        let mut cfg = Config { presets: StringHashMap::new(), orders: Vec::new() };
        match doc.get("presets") {
            Some(Node::Table(entries)) => {
                let mut i: usize = 0;
                while i < entries.len()
                    invariant
                        i <= entries.len(),
                        cfg.orders@ == Seq::<Scheme>::empty(),
                        presets_view(cfg.presets) == ConfigView::declared_presets(
                            entries@.take(i as int),
                        ),
                    decreases entries.len() - i,
                {
                    let name = &entries[i].0;
                    if !cfg.presets.contains_key(name.as_str()) {
                        let preset = Scheme::from_toml_value(&entries[i].1);
                        cfg.presets.insert(name.clone(), preset);
                    }
                    proof {
                        assert(entries@.take(i + 1) =~= entries@.take(i as int).push(
                            entries@[i as int],
                        ));
                        lemma_declared_presets_push(entries@.take(i as int), entries@[i as int]);
                        assert(presets_view(cfg.presets) =~= ConfigView::declared_presets(
                            entries@.take(i + 1),
                        ));
                    }
                    i += 1;
                }
                assert(entries@.take(i as int) =~= entries@);
            },
            _ => {
                return Err(ConfigError::illegal("presets not provided".to_owned()));
            },
        }
        match doc.get("orders") {
            Some(Node::Array(items)) => {
                let mut i: usize = 0;
                while i < items.len()
                    invariant
                        i <= items.len(),
                        cfg@.presets == ConfigView::declared(*doc).unwrap().presets,
                        ConfigView::declared(*doc) is Some,
                        cfg@.orders == ConfigView::declared_orders(items@.take(i as int)),
                    decreases items.len() - i,
                {
                    let ghost before = cfg@.orders;
                    cfg.orders.push(Scheme::from_toml_value(&items[i]));
                    proof {
                        assert(items@.take(i + 1) =~= items@.take(i as int).push(items@[i as int]));
                        assert(cfg@.orders =~= before.push(SchemeView::declared(items@[i as int])));
                        assert(cfg@.orders =~= ConfigView::declared_orders(items@.take(i + 1)));
                    }
                    i += 1;
                }
                assert(items@.take(i as int) =~= items@);
            },
            _ => {
                assert(cfg@.orders =~= Seq::empty());
            },
        }
        match Config::fix(&mut cfg, args) {
            Ok(()) => Ok(cfg),
            Err(e) => Err(e),
        }
    }

    /// Reads the configuration text `toml_str`, builds the configuration
    /// it declares and resolves its jobs under the command line `args`. A
    /// text that is no TOML document gives a `ConfigTomlIllegal` failure
    /// that carries the parser's own.
    pub fn from_toml(toml_str: String, args: &Vec<String>) -> (r: Result<Config, ConfigError>)
        ensures
            is_loaded_from(r, toml_str@, args.deep_view()),
    {
        match Node::parse(toml_str.as_str()) {
            Ok(doc) => Config::from_document(&doc, args),
            Err(e) => Err(e),
        }
    }

    /// Loads the sample configuration under the command line `args`.
    pub fn _from_toml_test(args: &Vec<String>) -> (r: Result<Config, ConfigError>)
        ensures
            is_loaded_from(r, SAMPLE@, args.deep_view()),
    {
        Config::from_toml(SAMPLE.to_owned(), args)
    }

    /// Resolves every job of `cfg` in place, under the command line `args`
    /// (the program's name not among them). On a failure `cfg` is left as
    /// it was.
    pub fn fix(cfg: &mut Config, args: &Vec<String>) -> (r: Result<(), ConfigError>)
        ensures
            match old(cfg)@.fixed(args.deep_view()) {
                Ok(done) => r is Ok && final(cfg)@ == done,
                Err(failure) => r matches Err(e) && e@ == failure && *final(cfg) == *old(cfg),
            },
    {
        let invocation = match split_args(args) {
            Ok(invocation) => invocation,
            Err(e) => {
                return Err(e);
            },
        };
        let last = built_in_scheme(&invocation);
        let ghost before = *cfg;
        let count = cfg.orders.len();
        let mut i: usize = 0;
        while i < count
            invariant
                i <= count,
                i == 0 ==> *cfg == before,
                count == cfg.orders.len(),
                count == before.orders.len(),
                cfg.presets == before.presets,
                last@ == built_in(invocation@),
                forall|k: int|
                    0 <= k < i ==> (#[trigger] cfg.orders[k])@ == resolve(
                        before.orders[k]@,
                        presets_view(before.presets),
                        invocation@,
                    ),
                forall|k: int| i <= k < count ==> cfg.orders[k] == before.orders[k],
            decreases count - i,
        {
            resolve_order(&mut cfg.orders[i], &cfg.presets, &last);
            i += 1;
        }
        if cfg.orders.len() == 0 {
            Err(ConfigError::illegal("order not provided".to_owned()))
        } else {
            proof {
                assert(cfg@.orders =~= before@.resolved(invocation@).orders);
            }
            Ok(())
        }
    }
}

/// Precedence of the job's own values: every attribute that the job sets
/// itself resolves to the job's value, whatever the presets, the built-in
/// layer and the command line hold.
pub proof fn lemma_resolve_keeps_job(job: SchemeView, presets: Presets, invocation: InvocationView)
    ensures
        resolve(job, presets, invocation).keeps(job),
{
    let own = match job.preset_name {
        Some(name) => inherit(job, name, presets, 1),
        None => job,
    };
    if let Some(name) = job.preset_name {
        lemma_inherit_keeps(job, name, presets, 1);
    }
    lemma_inherit_keeps(own, "default"@, presets, 1);
}

/// The layers of a resolved job, highest first: the job's own values, then
/// what the chain of the preset it names holds, then what the chain of
/// `default` holds, then the built-in layer with the command line in it.
pub proof fn lemma_resolve_is_layered(job: SchemeView, presets: Presets, invocation: InvocationView)
    ensures
        resolve(job, presets, invocation) == job.complement(
            match job.preset_name {
                Some(name) => chain(name, presets, 1),
                None => SchemeView::empty(),
            },
        ).complement(chain("default"@, presets, 1)).complement(built_in(invocation)),
{
    let own = match job.preset_name {
        Some(name) => inherit(job, name, presets, 1),
        None => job,
    };
    match job.preset_name {
        Some(name) => {
            lemma_inherit_is_one_merge(job, name, presets, 1);
        },
        None => {
            lemma_complement_from_empty(job);
        },
    }
    lemma_inherit_is_one_merge(own, "default"@, presets, 1);
}

/// Order in the chain: where the job names the first of a chain of three
/// presets, each attribute that the job lacks resolves to the value of the
/// first preset of the chain that has it, never to that of a later one.
pub proof fn lemma_resolve_chain_order(
    job: SchemeView,
    first: Seq<char>,
    second: Seq<char>,
    third: Seq<char>,
    presets: Presets,
    invocation: InvocationView,
)
    requires
        job.preset_name == Some(first),
        presets.contains_key(first),
        presets.contains_key(second),
        presets.contains_key(third),
        presets[first].preset_name == Some(second),
        presets[second].preset_name == Some(third),
    ensures
        resolve(job, presets, invocation).keeps(
            job.complement(presets[first]).complement(presets[second]).complement(
                presets[third],
            ),
        ),
{
    lemma_inherit_chain_order(job, first, second, third, presets);
    lemma_inherit_keeps(inherit(job, first, presets, 1), "default"@, presets, 1);
}

/// A circle of presets does not stop resolution: where the job names a
/// preset whose parent names that preset as its own parent again, the job
/// resolves to what one round of the circle gives, then `default`, then
/// the built-in layer.
pub proof fn lemma_resolve_circle(
    job: SchemeView,
    first: Seq<char>,
    second: Seq<char>,
    presets: Presets,
    invocation: InvocationView,
)
    requires
        job.preset_name == Some(first),
        presets.contains_key(first),
        presets.contains_key(second),
        presets[first].preset_name == Some(second),
        presets[second].preset_name == Some(first),
    ensures
        resolve(job, presets, invocation) == job.complement(presets[first]).complement(
            presets[second],
        ).complement(chain("default"@, presets, 1)).complement(built_in(invocation)),
{
    lemma_inherit_circle(job, first, second, presets);
    lemma_inherit_is_one_merge(inherit(job, first, presets, 1), "default"@, presets, 1);
}

/// The job's own preset comes before `default`: what the job lacks and the
/// preset it names has resolves to that preset's value.
pub proof fn lemma_resolve_own_preset_first(
    job: SchemeView,
    name: Seq<char>,
    presets: Presets,
    invocation: InvocationView,
)
    requires
        job.preset_name == Some(name),
        presets.contains_key(name),
    ensures
        resolve(job, presets, invocation).keeps(job.complement(presets[name])),
{
    lemma_inherit_nearest_wins(job, name, presets, 1);
    lemma_inherit_keeps(inherit(job, name, presets, 1), "default"@, presets, 1);
}

/// The built-in thread count: a job that has no thread count after both
/// inheritance passes resolves to one thread; and it has none after them
/// where neither the job itself nor any preset sets one.
pub proof fn lemma_resolve_default_threads(
    job: SchemeView,
    presets: Presets,
    invocation: InvocationView,
)
    ensures
        inherited(job, presets).threads_count is None ==> resolve(
            job,
            presets,
            invocation,
        ).threads_count == Some(1i32),
        job.threads_count is None && (forall|name: Seq<char>|
            presets.contains_key(name) ==> (#[trigger] presets[name]).threads_count is None)
            ==> resolve(job, presets, invocation).threads_count == Some(1i32),
{
    if job.threads_count is None && (forall|name: Seq<char>|
        presets.contains_key(name) ==> (#[trigger] presets[name]).threads_count is None) {
        let own = match job.preset_name {
            Some(name) => inherit(job, name, presets, 1),
            None => job,
        };
        if let Some(name) = job.preset_name {
            lemma_inherit_no_thread_count(job, name, presets, 1);
        }
        lemma_inherit_no_thread_count(own, "default"@, presets, 1);
    }
}

/// What every resolved job has: the attributes for which the built-in
/// layer holds a value are all present.
pub proof fn lemma_resolve_populates(job: SchemeView, presets: Presets, invocation: InvocationView)
    ensures
        ({
            let done = resolve(job, presets, invocation);
            &&& done.show_progress is Some
            &&& done.show_info is Some
            &&& done.threads_count is Some
            &&& done.simulate_terminal is Some
            &&& done.repeat_count is Some
            &&& done.stdout_type is Some
            &&& done.stderr_type is Some
            &&& done.args_template is Some
            &&& done.args_switches is Some
            &&& done.output_file_overwrite is Some
            &&& done.output_dir_keep_struct is Some
        }),
{
}

/// A job that declares nothing, where no preset is called `default`,
/// resolves to the built-in layer and nothing else.
pub proof fn lemma_resolve_bare_job(presets: Presets, invocation: InvocationView)
    requires
        !presets.contains_key("default"@),
    ensures
        resolve(SchemeView::empty(), presets, invocation) == built_in(invocation),
{
}

/// The command line comes last: its input items and its output path reach
/// a job only where the job has none after both inheritance passes.
pub proof fn lemma_resolve_splices_command_line(
    job: SchemeView,
    presets: Presets,
    invocation: InvocationView,
)
    ensures
        ({
            let before = inherited(job, presets);
            let done = resolve(job, presets, invocation);
            &&& done.input_list == if before.input_list is Some {
                before.input_list
            } else if invocation.input_list.len() == 0 {
                None
            } else {
                Some(invocation.input_list)
            }
            &&& done.output_file_path == if before.output_file_path is Some {
                before.output_file_path
            } else {
                invocation.output_file_path
            }
        }),
{
}

/// A configuration without jobs is refused: whatever the command line, the
/// outcome is a `ConfigIllegal` failure.
pub proof fn lemma_no_jobs_refused(cfg: ConfigView, args: Seq<Seq<char>>)
    requires
        cfg.orders.len() == 0,
    ensures
        cfg.fixed(args) matches Err(failure) && failure.kind == ErrorKind::ConfigIllegal,
{
}

/// A document that declares presets and no job is refused with a
/// `ConfigIllegal` failure, whatever the command line.
pub proof fn lemma_document_without_jobs_refused(doc: Node, args: Seq<Seq<char>>)
    requires
        ConfigView::declared(doc) matches Some(cfg) && cfg.orders.len() == 0,
    ensures
        ConfigView::loaded(doc, args) matches Err(failure) && failure.kind
            == ErrorKind::ConfigIllegal,
{
}

} // verus!
