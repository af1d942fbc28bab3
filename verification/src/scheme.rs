//! The settings record of one job or preset, and the merge that fills what
//! is absent in one record from another.

use crate::document::Node;
use vstd::prelude::*;

verus! {

/// The settings of a job or of a preset. Every attribute is either present
/// or absent.
#[derive(Debug, Clone, PartialEq, Eq)]
pub struct Scheme {
    /// The preset this record inherits from.
    pub preset_name: Option<String>,
    pub show_progress: Option<bool>,
    pub show_info: Option<bool>,
    pub threads_count: Option<i32>,
    pub simulate_terminal: Option<bool>,
    pub repeat_count: Option<i32>,
    pub stdout_type: Option<String>,
    pub stdout_file_path: Option<String>,
    pub stderr_type: Option<String>,
    pub stderr_file_path: Option<String>,
    pub program: Option<String>,
    pub args_template: Option<String>,
    pub args_switches: Option<String>,
    pub input_list: Option<Vec<String>>,
    pub input_dir_path: Option<String>,
    pub input_dir_deep: Option<bool>,
    pub output_file_path: Option<String>,
    pub output_file_overwrite: Option<bool>,
    pub output_dir_path: Option<String>,
    pub output_dir_keep_struct: Option<bool>,
    pub output_file_name_extension: Option<String>,
    pub output_file_name_prefix: Option<String>,
    pub output_file_name_suffix: Option<String>,
}

/// A `Scheme` with its texts as sequences of characters.
pub struct SchemeView {
    pub preset_name: Option<Seq<char>>,
    pub show_progress: Option<bool>,
    pub show_info: Option<bool>,
    pub threads_count: Option<i32>,
    pub simulate_terminal: Option<bool>,
    pub repeat_count: Option<i32>,
    pub stdout_type: Option<Seq<char>>,
    pub stdout_file_path: Option<Seq<char>>,
    pub stderr_type: Option<Seq<char>>,
    pub stderr_file_path: Option<Seq<char>>,
    pub program: Option<Seq<char>>,
    pub args_template: Option<Seq<char>>,
    pub args_switches: Option<Seq<char>>,
    pub input_list: Option<Seq<Seq<char>>>,
    pub input_dir_path: Option<Seq<char>>,
    pub input_dir_deep: Option<bool>,
    pub output_file_path: Option<Seq<char>>,
    pub output_file_overwrite: Option<bool>,
    pub output_dir_path: Option<Seq<char>>,
    pub output_dir_keep_struct: Option<bool>,
    pub output_file_name_extension: Option<Seq<char>>,
    pub output_file_name_prefix: Option<Seq<char>>,
    pub output_file_name_suffix: Option<Seq<char>>,
}

impl View for Scheme {
    type V = SchemeView;

    open spec fn view(&self) -> SchemeView {
        SchemeView {
            preset_name: self.preset_name.deep_view(),
            show_progress: self.show_progress,
            show_info: self.show_info,
            threads_count: self.threads_count,
            simulate_terminal: self.simulate_terminal,
            repeat_count: self.repeat_count,
            stdout_type: self.stdout_type.deep_view(),
            stdout_file_path: self.stdout_file_path.deep_view(),
            stderr_type: self.stderr_type.deep_view(),
            stderr_file_path: self.stderr_file_path.deep_view(),
            program: self.program.deep_view(),
            args_template: self.args_template.deep_view(),
            args_switches: self.args_switches.deep_view(),
            input_list: self.input_list.deep_view(),
            input_dir_path: self.input_dir_path.deep_view(),
            input_dir_deep: self.input_dir_deep,
            output_file_path: self.output_file_path.deep_view(),
            output_file_overwrite: self.output_file_overwrite,
            output_dir_path: self.output_dir_path.deep_view(),
            output_dir_keep_struct: self.output_dir_keep_struct,
            output_file_name_extension: self.output_file_name_extension.deep_view(),
            output_file_name_prefix: self.output_file_name_prefix.deep_view(),
            output_file_name_suffix: self.output_file_name_suffix.deep_view(),
        }
    }
}

/// One attribute after a merge: the target's value where it has one, else
/// the source's.
pub open spec fn fill<T>(target: Option<T>, source: Option<T>) -> Option<T> {
    if target is Some {
        target
    } else {
        source
    }
}

/// Whether an attribute that was present `before` has the same value `after`.
pub open spec fn kept<T>(before: Option<T>, after: Option<T>) -> bool {
    before is Some ==> after == before
}

impl SchemeView {
    /// The record in which every attribute is absent.
    pub open spec fn empty() -> SchemeView {
        SchemeView {
            preset_name: None,
            show_progress: None,
            show_info: None,
            threads_count: None,
            simulate_terminal: None,
            repeat_count: None,
            stdout_type: None,
            stdout_file_path: None,
            stderr_type: None,
            stderr_file_path: None,
            program: None,
            args_template: None,
            args_switches: None,
            input_list: None,
            input_dir_path: None,
            input_dir_deep: None,
            output_file_path: None,
            output_file_overwrite: None,
            output_dir_path: None,
            output_dir_keep_struct: None,
            output_file_name_extension: None,
            output_file_name_prefix: None,
            output_file_name_suffix: None,
        }
    }

    /// The record that the table `node` of a document declares: each
    /// attribute is what stands at its dotted path with the right type, and
    /// absent where nothing does.
    pub open spec fn declared(node: Node) -> SchemeView {
        SchemeView {
            preset_name: node.str_at("preset"@),
            show_progress: node.bool_at("message.progress"@),
            show_info: node.bool_at("message.info"@),
            threads_count: node.i32_at("threads.count"@),
            simulate_terminal: node.bool_at("process.simulate_terminal"@),
            repeat_count: node.i32_at("repeat.count"@),
            stdout_type: node.str_at("stdio.stdout.type"@),
            stdout_file_path: node.str_at("stdio.stdout.file.path"@),
            stderr_type: node.str_at("stdio.stderr.type"@),
            stderr_file_path: node.str_at("stdio.stderr.file.path"@),
            program: node.str_at("program"@),
            args_template: node.str_at("args.template"@),
            args_switches: node.str_at("args.switches"@),
            input_list: node.vec_str_at("input.list"@),
            input_dir_path: node.str_at("input.dir.path"@),
            input_dir_deep: node.bool_at("input.dir.deep"@),
            output_file_path: node.str_at("output.file.path"@),
            output_file_overwrite: node.bool_at("output.file.overwrite"@),
            output_dir_path: node.str_at("output.dir.path"@),
            output_dir_keep_struct: node.bool_at("output.dir.keep_struct"@),
            output_file_name_extension: node.str_at("output.file_name.extension"@),
            output_file_name_prefix: node.str_at("output.file_name.prefix"@),
            output_file_name_suffix: node.str_at("output.file_name.suffix"@),
        }
    }

    /// This record with each absent attribute taken from `source`.
    pub open spec fn complement(self, source: SchemeView) -> SchemeView {
        SchemeView {
            preset_name: fill(self.preset_name, source.preset_name),
            show_progress: fill(self.show_progress, source.show_progress),
            show_info: fill(self.show_info, source.show_info),
            threads_count: fill(self.threads_count, source.threads_count),
            simulate_terminal: fill(self.simulate_terminal, source.simulate_terminal),
            repeat_count: fill(self.repeat_count, source.repeat_count),
            stdout_type: fill(self.stdout_type, source.stdout_type),
            stdout_file_path: fill(self.stdout_file_path, source.stdout_file_path),
            stderr_type: fill(self.stderr_type, source.stderr_type),
            stderr_file_path: fill(self.stderr_file_path, source.stderr_file_path),
            program: fill(self.program, source.program),
            args_template: fill(self.args_template, source.args_template),
            args_switches: fill(self.args_switches, source.args_switches),
            input_list: fill(self.input_list, source.input_list),
            input_dir_path: fill(self.input_dir_path, source.input_dir_path),
            input_dir_deep: fill(self.input_dir_deep, source.input_dir_deep),
            output_file_path: fill(self.output_file_path, source.output_file_path),
            output_file_overwrite: fill(self.output_file_overwrite, source.output_file_overwrite),
            output_dir_path: fill(self.output_dir_path, source.output_dir_path),
            output_dir_keep_struct: fill(
                self.output_dir_keep_struct,
                source.output_dir_keep_struct,
            ),
            output_file_name_extension: fill(
                self.output_file_name_extension,
                source.output_file_name_extension,
            ),
            output_file_name_prefix: fill(
                self.output_file_name_prefix,
                source.output_file_name_prefix,
            ),
            output_file_name_suffix: fill(
                self.output_file_name_suffix,
                source.output_file_name_suffix,
            ),
        }
    }

    /// Whether every attribute that is present in `earlier` has the same
    /// value in this record.
    pub open spec fn keeps(self, earlier: SchemeView) -> bool {
        &&& kept(earlier.preset_name, self.preset_name)
        &&& kept(earlier.show_progress, self.show_progress)
        &&& kept(earlier.show_info, self.show_info)
        &&& kept(earlier.threads_count, self.threads_count)
        &&& kept(earlier.simulate_terminal, self.simulate_terminal)
        &&& kept(earlier.repeat_count, self.repeat_count)
        &&& kept(earlier.stdout_type, self.stdout_type)
        &&& kept(earlier.stdout_file_path, self.stdout_file_path)
        &&& kept(earlier.stderr_type, self.stderr_type)
        &&& kept(earlier.stderr_file_path, self.stderr_file_path)
        &&& kept(earlier.program, self.program)
        &&& kept(earlier.args_template, self.args_template)
        &&& kept(earlier.args_switches, self.args_switches)
        &&& kept(earlier.input_list, self.input_list)
        &&& kept(earlier.input_dir_path, self.input_dir_path)
        &&& kept(earlier.input_dir_deep, self.input_dir_deep)
        &&& kept(earlier.output_file_path, self.output_file_path)
        &&& kept(earlier.output_file_overwrite, self.output_file_overwrite)
        &&& kept(earlier.output_dir_path, self.output_dir_path)
        &&& kept(earlier.output_dir_keep_struct, self.output_dir_keep_struct)
        &&& kept(earlier.output_file_name_extension, self.output_file_name_extension)
        &&& kept(earlier.output_file_name_prefix, self.output_file_name_prefix)
        &&& kept(earlier.output_file_name_suffix, self.output_file_name_suffix)
    }
}

impl Default for Scheme {
    /// The record in which every attribute is absent.
    fn default() -> (scheme: Scheme)
        ensures
            scheme@ == SchemeView::empty(),
    {
        Scheme {
            preset_name: None,
            show_progress: None,
            show_info: None,
            threads_count: None,
            simulate_terminal: None,
            repeat_count: None,
            stdout_type: None,
            stdout_file_path: None,
            stderr_type: None,
            stderr_file_path: None,
            program: None,
            args_template: None,
            args_switches: None,
            input_list: None,
            input_dir_path: None,
            input_dir_deep: None,
            output_file_path: None,
            output_file_overwrite: None,
            output_dir_path: None,
            output_dir_keep_struct: None,
            output_file_name_extension: None,
            output_file_name_prefix: None,
            output_file_name_suffix: None,
        }
    }
}

/// A copy of `list` with the same texts in the same order.
pub fn clone_list(list: &Vec<String>) -> (copy: Vec<String>)
    ensures
        copy.deep_view() == list.deep_view(),
{
    let mut copy: Vec<String> = Vec::new();
    let mut i: usize = 0;
    while i < list.len()
        invariant
            i <= list.len(),
            copy.len() == i,
            forall|k: int| 0 <= k < i ==> copy[k]@ == list[k]@,
        decreases list.len() - i,
    {
        copy.push(list[i].clone());
        i += 1;
    }
    assert(copy.deep_view() =~= list.deep_view());
    copy
}

fn fill_flag(target: &mut Option<bool>, source: &Option<bool>)
    ensures
        *final(target) == fill(*old(target), *source),
{
    if target.is_none() {
        *target = *source;
    }
}

fn fill_count(target: &mut Option<i32>, source: &Option<i32>)
    ensures
        *final(target) == fill(*old(target), *source),
{
    if target.is_none() {
        *target = *source;
    }
}

fn fill_text(target: &mut Option<String>, source: &Option<String>)
    ensures
        final(target).deep_view() == fill(old(target).deep_view(), source.deep_view()),
{
    if target.is_none() {
        if let Some(text) = source {
            *target = Some(text.clone());
        }
    }
}

fn fill_list(target: &mut Option<Vec<String>>, source: &Option<Vec<String>>)
    ensures
        final(target).deep_view() == fill(old(target).deep_view(), source.deep_view()),
{
    if target.is_none() {
        if let Some(list) = source {
            *target = Some(clone_list(list));
        }
    }
}

impl Scheme {
    /// Reads a record from the table `v` of a document.
    pub fn from_toml_value(v: &Node) -> (scheme: Scheme)
        ensures
            scheme@ == SchemeView::declared(*v),
    {
        Scheme {
            preset_name: v.seek_str("preset"),
            show_progress: v.seek_bool("message.progress"),
            show_info: v.seek_bool("message.info"),
            threads_count: v.seek_i32("threads.count"),
            simulate_terminal: v.seek_bool("process.simulate_terminal"),
            repeat_count: v.seek_i32("repeat.count"),
            stdout_type: v.seek_str("stdio.stdout.type"),
            stdout_file_path: v.seek_str("stdio.stdout.file.path"),
            stderr_type: v.seek_str("stdio.stderr.type"),
            stderr_file_path: v.seek_str("stdio.stderr.file.path"),
            program: v.seek_str("program"),
            args_template: v.seek_str("args.template"),
            args_switches: v.seek_str("args.switches"),
            input_list: v.seek_vec_str("input.list"),
            input_dir_path: v.seek_str("input.dir.path"),
            input_dir_deep: v.seek_bool("input.dir.deep"),
            output_file_path: v.seek_str("output.file.path"),
            output_file_overwrite: v.seek_bool("output.file.overwrite"),
            output_dir_path: v.seek_str("output.dir.path"),
            output_dir_keep_struct: v.seek_bool("output.dir.keep_struct"),
            output_file_name_extension: v.seek_str("output.file_name.extension"),
            output_file_name_prefix: v.seek_str("output.file_name.prefix"),
            output_file_name_suffix: v.seek_str("output.file_name.suffix"),
        }
    }

    /// Fills every attribute that is absent here with the value that
    /// `default` has for it; attributes that are present stay as they are.
    pub fn complement(&mut self, default: &Scheme)
        ensures
            final(self)@ == old(self)@.complement(default@),
    {
        fill_text(&mut self.preset_name, &default.preset_name);
        fill_flag(&mut self.show_progress, &default.show_progress);
        fill_flag(&mut self.show_info, &default.show_info);
        fill_count(&mut self.threads_count, &default.threads_count);
        fill_flag(&mut self.simulate_terminal, &default.simulate_terminal);
        fill_count(&mut self.repeat_count, &default.repeat_count);
        fill_text(&mut self.stdout_type, &default.stdout_type);
        fill_text(&mut self.stdout_file_path, &default.stdout_file_path);
        fill_text(&mut self.stderr_type, &default.stderr_type);
        fill_text(&mut self.stderr_file_path, &default.stderr_file_path);
        fill_text(&mut self.program, &default.program);
        fill_text(&mut self.args_template, &default.args_template);
        fill_text(&mut self.args_switches, &default.args_switches);
        fill_list(&mut self.input_list, &default.input_list);
        fill_text(&mut self.input_dir_path, &default.input_dir_path);
        fill_flag(&mut self.input_dir_deep, &default.input_dir_deep);
        fill_text(&mut self.output_file_path, &default.output_file_path);
        fill_flag(&mut self.output_file_overwrite, &default.output_file_overwrite);
        fill_text(&mut self.output_dir_path, &default.output_dir_path);
        fill_flag(&mut self.output_dir_keep_struct, &default.output_dir_keep_struct);
        fill_text(&mut self.output_file_name_extension, &default.output_file_name_extension);
        fill_text(&mut self.output_file_name_prefix, &default.output_file_name_prefix);
        fill_text(&mut self.output_file_name_suffix, &default.output_file_name_suffix);
    }
}

/// Merging is idempotent: to complement a record twice from the same source
/// gives what complementing it once gives.
pub proof fn lemma_complement_idempotent(target: SchemeView, source: SchemeView)
    ensures
        target.complement(source).complement(source) == target.complement(source),
{
}

/// Merging never overwrites: every attribute that is present before a merge
/// has the same value after it, whatever the source.
pub proof fn lemma_complement_keeps(target: SchemeView, source: SchemeView)
    ensures
        target.complement(source).keeps(target),
{
}

/// A source that has been merged in once adds nothing when it is merged in
/// again later, whatever was merged in between.
pub proof fn lemma_complement_absorbs(target: SchemeView, source: SchemeView, between: SchemeView)
    ensures
        target.complement(source).complement(between).complement(source) == target.complement(
            source,
        ).complement(between),
{
    assert forall|t: Option<Seq<char>>, s: Option<Seq<char>>, b: Option<Seq<char>>|
        #[trigger] fill(fill(fill(t, s), b), s) == fill(fill(t, s), b) by {}
    assert forall|t: Option<Seq<Seq<char>>>, s: Option<Seq<Seq<char>>>, b: Option<Seq<Seq<char>>>|
        #[trigger] fill(fill(fill(t, s), b), s) == fill(fill(t, s), b) by {}
    assert forall|t: Option<bool>, s: Option<bool>, b: Option<bool>|
        #[trigger] fill(fill(fill(t, s), b), s) == fill(fill(t, s), b) by {}
    assert forall|t: Option<i32>, s: Option<i32>, b: Option<i32>|
        #[trigger] fill(fill(fill(t, s), b), s) == fill(fill(t, s), b) by {}
}

/// Merging is associative: to merge two sources in one after the other
/// gives what merging in the first, itself complemented from the second,
/// gives.
pub proof fn lemma_complement_associative(target: SchemeView, first: SchemeView, second: SchemeView)
    ensures
        target.complement(first).complement(second) == target.complement(
            first.complement(second),
        ),
{
    assert forall|t: Option<Seq<char>>, a: Option<Seq<char>>, b: Option<Seq<char>>|
        #[trigger] fill(fill(t, a), b) == fill(t, fill(a, b)) by {}
    assert forall|t: Option<Seq<Seq<char>>>, a: Option<Seq<Seq<char>>>, b: Option<Seq<Seq<char>>>|
        #[trigger] fill(fill(t, a), b) == fill(t, fill(a, b)) by {}
    assert forall|t: Option<bool>, a: Option<bool>, b: Option<bool>|
        #[trigger] fill(fill(t, a), b) == fill(t, fill(a, b)) by {}
    assert forall|t: Option<i32>, a: Option<i32>, b: Option<i32>|
        #[trigger] fill(fill(t, a), b) == fill(t, fill(a, b)) by {}
}

/// A merge from the empty record changes nothing.
pub proof fn lemma_complement_from_empty(target: SchemeView)
    ensures
        target.complement(SchemeView::empty()) == target,
{
}

} // verus!
