//! The description of a process to launch: the executable, its arguments and
//! the directory it runs in, built step by step before a launch.
use vstd::prelude::*;
use vstd::string::*;

verus! {

/// What a process description holds, as mathematical values.
pub struct ProcessSpec {
    pub pid: Option<u32>,
    pub filename: Seq<char>,
    pub arguments: Seq<Seq<char>>,
    pub working_directory: Seq<char>,
}

/// The directory a new description runs in: `./`.
pub open spec fn current_directory() -> Seq<char> {
    seq!['.', '/']
}

/// The arguments of a list of string slices.
pub open spec fn strs_view(args: Seq<&str>) -> Seq<Seq<char>> {
    args.map_values(|a: &str| a@)
}

/// The arguments of a list of strings.
pub open spec fn strings_view(args: Seq<String>) -> Seq<Seq<char>> {
    args.map_values(|a: String| a@)
}

impl ProcessSpec {
    /// A fresh description of `filename`: no process id, no arguments, the
    /// current directory.
    pub open spec fn fresh(filename: Seq<char>) -> ProcessSpec {
        ProcessSpec {
            pid: None,
            filename,
            arguments: Seq::empty(),
            working_directory: current_directory(),
        }
    }

    /// The description with all its arguments replaced by `args`.
    pub open spec fn with_arguments(self, args: Seq<Seq<char>>) -> ProcessSpec {
        ProcessSpec { arguments: args, ..self }
    }

    /// The description with `arg` added after its arguments.
    pub open spec fn with_argument(self, arg: Seq<char>) -> ProcessSpec {
        ProcessSpec { arguments: self.arguments.push(arg), ..self }
    }

    /// The description with its working directory set to `dir`.
    pub open spec fn with_working_directory(self, dir: Seq<char>) -> ProcessSpec {
        ProcessSpec { working_directory: dir, ..self }
    }

    /// The description of the process once it runs under `pid`.
    pub open spec fn started(self, pid: u32) -> ProcessSpec {
        ProcessSpec { pid: Some(pid), ..self }
    }
}

/// The description of a process to launch and, once it has been launched,
/// the id it runs under.
#[derive(Debug)]
pub struct AsynchronousInteractiveProcess {
    pub pid: Option<u32>,
    pub filename: String,
    pub arguments: Vec<String>,
    pub working_directory: String,
}

impl View for AsynchronousInteractiveProcess {
    type V = ProcessSpec;

    open spec fn view(&self) -> ProcessSpec {
        ProcessSpec {
            pid: self.pid,
            filename: self.filename@,
            arguments: strings_view(self.arguments@),
            working_directory: self.working_directory@,
        }
    }
}

/// Copies of the strings of a list.
fn copy_strings(args: &Vec<String>) -> (r: Vec<String>)
    ensures
        strings_view(r@) == strings_view(args@),
{
    let mut r: Vec<String> = Vec::new();
    let mut i: usize = 0;
    while i < args.len()
        invariant
            i <= args.len(),
            strings_view(r@) == strings_view(args@.take(i as int)),
        decreases args.len() - i,
    {
        let ghost before = r@;
        r.push(String::from_str(args[i].as_str()));
        proof {
            assert(strings_view(r@) =~= strings_view(before).push(args@[i as int]@));
            assert(strings_view(args@.take(i + 1)) =~= strings_view(args@.take(i as int)).push(
                args@[i as int]@,
            ));
            assert(args@.take(i + 1) =~= args@.take(i as int).push(args@[i as int]));
        }
        i = i + 1;
    }
    proof {
        assert(args@.take(args.len() as int) =~= args@);
    }
    r
}

impl AsynchronousInteractiveProcess {
    /// A description of `filename` with no arguments, no process id, run in
    /// `./`.
    pub fn new(filename: &str) -> (r: Self)
        ensures
            r@ == ProcessSpec::fresh(filename@),
    {
        let here = "./";
        proof {
            reveal_strlit("./");
            assert(here@ =~= current_directory());
        }
        let r = AsynchronousInteractiveProcess {
            pid: None,
            filename: String::from_str(filename),
            arguments: Vec::new(),
            working_directory: String::from_str(here),
        };
        proof {
            assert(strings_view(r.arguments@) =~= Seq::<Seq<char>>::empty());
        }
        r
    }

    /// The description with all its arguments replaced by `args`.
    pub fn with_arguments(self, args: Vec<&str>) -> (r: Self)
        ensures
            r@ == self@.with_arguments(strs_view(args@)),
    {
        let mut converted: Vec<String> = Vec::new();
        let mut i: usize = 0;
        while i < args.len()
            invariant
                i <= args.len(),
                strings_view(converted@) == strs_view(args@.take(i as int)),
            decreases args.len() - i,
        {
            let ghost before = converted@;
            converted.push(String::from_str(args[i]));
            proof {
                assert(strings_view(converted@) =~= strings_view(before).push(args@[i as int]@));
                assert(strs_view(args@.take(i + 1)) =~= strs_view(args@.take(i as int)).push(
                    args@[i as int]@,
                ));
                assert(args@.take(i + 1) =~= args@.take(i as int).push(args@[i as int]));
            }
            i = i + 1;
        }
        proof {
            assert(args@.take(args.len() as int) =~= args@);
        }
        let mut s = self;
        s.arguments = converted;
        s
    }

    /// The description with `arg` added after its arguments.
    pub fn with_argument(self, arg: &str) -> (r: Self)
        ensures
            r@ == self@.with_argument(arg@),
    {
        let mut s = self;
        s.arguments.push(String::from_str(arg));
        proof {
            assert(strings_view(s.arguments@) =~= strings_view(self.arguments@).push(arg@));
        }
        s
    }

    /// The description with its working directory set to `dir`.
    pub fn with_working_directory(self, dir: &str) -> (r: Self)
        ensures
            r@ == self@.with_working_directory(dir@),
    {
        let mut s = self;
        s.working_directory = String::from_str(dir);
        s
    }

    /// A copy of the description, marked as running under `pid`.
    pub fn started_copy(&self, pid: u32) -> (r: Self)
        ensures
            r@ == self@.started(pid),
    {
        AsynchronousInteractiveProcess {
            pid: Some(pid),
            filename: String::from_str(self.filename.as_str()),
            arguments: copy_strings(&self.arguments),
            working_directory: String::from_str(self.working_directory.as_str()),
        }
    }
}

impl Default for AsynchronousInteractiveProcess {
    /// An empty description: no process id, no executable, no arguments, no
    /// directory.
    fn default() -> (r: Self)
        ensures
            r@ == (ProcessSpec {
                pid: None,
                filename: Seq::empty(),
                arguments: Seq::empty(),
                working_directory: Seq::empty(),
            }),
    {
        let r = AsynchronousInteractiveProcess {
            pid: None,
            filename: String::new(),
            arguments: Vec::new(),
            working_directory: String::new(),
        };
        proof {
            assert(strings_view(r.arguments@) =~= Seq::<Seq<char>>::empty());
        }
        r
    }
}

/// Replacing the arguments forgets every argument given before: the result
/// depends only on the new list.
pub proof fn lemma_with_arguments_replaces(p: ProcessSpec, args: Seq<Seq<char>>, before: Seq<Seq<char>>)
    ensures
        p.with_arguments(args) == (ProcessSpec { arguments: before, ..p }).with_arguments(args),
        p.with_arguments(args).arguments == args,
{
}

/// Adding arguments one by one appends them in the order given, after the
/// arguments already there.
pub proof fn lemma_with_argument_appends_in_order(p: ProcessSpec, a: Seq<char>, b: Seq<char>)
    ensures
        p.with_argument(a).with_argument(b).arguments == p.arguments + seq![a, b],
{
    assert(p.with_argument(a).with_argument(b).arguments =~= p.arguments + seq![a, b]);
}

/// Replacing the arguments and then adding one gives the new list followed by
/// the added argument; adding one and then replacing keeps only the new list.
pub proof fn lemma_argument_builders_combine(p: ProcessSpec, args: Seq<Seq<char>>, a: Seq<char>)
    ensures
        p.with_arguments(args).with_argument(a).arguments == args.push(a),
        p.with_argument(a).with_arguments(args).arguments == args,
{
}

/// The builders change only what they name: the executable, the process id
/// and the other settings stay as they were.
pub proof fn lemma_builders_keep_other_settings(p: ProcessSpec, args: Seq<Seq<char>>, a: Seq<char>, dir: Seq<char>)
    ensures
        p.with_arguments(args).filename == p.filename,
        p.with_arguments(args).pid == p.pid,
        p.with_arguments(args).working_directory == p.working_directory,
        p.with_argument(a).filename == p.filename,
        p.with_argument(a).pid == p.pid,
        p.with_argument(a).working_directory == p.working_directory,
        p.with_working_directory(dir).filename == p.filename,
        p.with_working_directory(dir).pid == p.pid,
        p.with_working_directory(dir).arguments == p.arguments,
{
}

/// Each builder sets exactly what it names to the value given: the working
/// directory becomes `dir` whatever `dir` is, an added argument becomes the
/// last argument behind all earlier ones, a fresh description runs `filename`
/// in `./` with no arguments and no process id, and a launched description
/// carries its process id.
pub proof fn lemma_builders_set_what_they_name(
    p: ProcessSpec,
    filename: Seq<char>,
    args: Seq<Seq<char>>,
    a: Seq<char>,
    dir: Seq<char>,
    pid: u32,
)
    ensures
        p.with_working_directory(dir).working_directory == dir,
        p.with_argument(a).arguments.len() == p.arguments.len() + 1,
        p.with_argument(a).arguments.last() == a,
        p.with_argument(a).arguments.take(p.arguments.len() as int) == p.arguments,
        p.with_arguments(args).arguments == args,
        ProcessSpec::fresh(filename).filename == filename,
        ProcessSpec::fresh(filename).pid is None,
        ProcessSpec::fresh(filename).arguments.len() == 0,
        ProcessSpec::fresh(filename).working_directory == seq!['.', '/'],
        p.started(pid).pid == Some(pid),
        p.started(pid).filename == p.filename,
        p.started(pid).arguments == p.arguments,
        p.started(pid).working_directory == p.working_directory,
{
    assert(p.with_argument(a).arguments.take(p.arguments.len() as int) =~= p.arguments);
}

} // verus!
