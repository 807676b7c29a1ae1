//! The command line of the transcoder: global options, input files and output
//! files, each with options, in the order they were added.
use vstd::prelude::*;

verus! {

/// One option: `-name`, or `-name value`.
#[derive(Debug, Clone, Copy)]
pub enum Parameter<'a> {
    Single(&'a str),
    KeyValue(&'a str, &'a str),
}

/// An input or an output, with the options that stand before it.
#[derive(Debug)]
pub struct File<'a> {
    pub url: &'a str,
    pub options: Vec<Parameter<'a>>,
}

/// What a standard stream of the child process is connected to.
#[derive(Debug, Clone, Copy, PartialEq, Eq, Structural)]
pub enum StdioMode {
    Null,
    Piped,
    Inherit,
}

/// A transcoder invocation: the program, its options, inputs and outputs, and
/// its standard streams.
#[derive(Debug)]
pub struct FfmpegBuilder<'a> {
    pub options: Vec<Parameter<'a>>,
    pub inputs: Vec<File<'a>>,
    pub outputs: Vec<File<'a>>,
    pub ffmpeg_command: &'a str,
    pub stdin: StdioMode,
    pub stdout: StdioMode,
    pub stderr: StdioMode,
}

/// The texts of a list of strings.
pub open spec fn texts(v: Seq<String>) -> Seq<Seq<char>> {
    v.map_values(|s: String| s@)
}

/// An option name as it stands on the command line.
pub open spec fn dashed(s: Seq<char>) -> Seq<char> {
    seq!['-'] + s
}

pub open spec fn param_args(p: Parameter) -> Seq<Seq<char>> {
    match p {
        Parameter::Single(a) => seq![dashed(a@)],
        Parameter::KeyValue(k, v) => seq![dashed(k@), v@],
    }
}

pub open spec fn params_args(ps: Seq<Parameter>) -> Seq<Seq<char>>
    decreases ps.len(),
{
    if ps.len() == 0 {
        Seq::empty()
    } else {
        params_args(ps.drop_last()) + param_args(ps.last())
    }
}

/// A file's arguments: its options, `-i` for an input, then its URL.
pub open spec fn file_args(f: File, input: bool) -> Seq<Seq<char>> {
    params_args(f.options@) + (if input {
        seq![seq!['-', 'i']]
    } else {
        Seq::empty()
    }) + seq![f.url@]
}

pub open spec fn files_args(fs: Seq<File>, input: bool) -> Seq<Seq<char>>
    decreases fs.len(),
{
    if fs.len() == 0 {
        Seq::empty()
    } else {
        files_args(fs.drop_last(), input) + file_args(fs.last(), input)
    }
}

/// The arguments of an invocation: global options, then the inputs, then the
/// outputs.
pub open spec fn builder_args(b: FfmpegBuilder) -> Seq<Seq<char>> {
    params_args(b.options@) + files_args(b.inputs@, true) + files_args(b.outputs@, false)
}

fn dash(s: &str) -> (r: String)
    ensures
        r@ == dashed(s@),
{
    let mut d = "-".to_owned();
    proof {
        reveal_strlit("-");
    }
    d.append(s);
    assert(d@ =~= dashed(s@));
    d
}

impl<'a> Parameter<'a> {
    fn push_args(&self, out: &mut Vec<String>)
        ensures
            texts(final(out)@) == texts(old(out)@) + param_args(*self),
    {
        match self {
            Parameter::Single(a) => {
                out.push(dash(a));
            },
            Parameter::KeyValue(k, v) => {
                out.push(dash(k));
                out.push((*v).to_owned());
            },
        }
        assert(texts(final(out)@) =~= texts(old(out)@) + param_args(*self));
    }
}

fn push_params(ps: &Vec<Parameter>, out: &mut Vec<String>)
    ensures
        texts(final(out)@) == texts(old(out)@) + params_args(ps@),
{
    let ghost start = texts(out@);
    let mut i: usize = 0;
    assert(ps@.take(0) =~= Seq::<Parameter>::empty());
    assert(start =~= start + params_args(ps@.take(0)));
    while i < ps.len()
        invariant
            i <= ps@.len(),
            start == texts(old(out)@),
            texts(out@) == start + params_args(ps@.take(i as int)),
        decreases ps@.len() - i,
    {
        ps[i].push_args(out);
        assert(ps@.take(i + 1).drop_last() =~= ps@.take(i as int));
        i = i + 1;
        assert(texts(out@) =~= start + params_args(ps@.take(i as int)));
    }
    assert(ps@.take(i as int) =~= ps@);
}

impl<'a> File<'a> {
    pub fn new(url: &'a str) -> (r: File<'a>)
        ensures
            r.url == url,
            r.options@ == Seq::<Parameter<'a>>::empty(),
    {
        File { url, options: Vec::new() }
    }

    pub fn option(self, option: Parameter<'a>) -> (r: Self)
        ensures
            r.url == self.url,
            r.options@ == self.options@.push(option),
    {
        let mut f = self;
        f.options.push(option);
        f
    }

    fn push_args(&self, out: &mut Vec<String>, input: bool)
        ensures
            texts(final(out)@) == texts(old(out)@) + file_args(*self, input),
    {
        let ghost start = texts(out@);
        push_params(&self.options, out);
        let ghost mid = texts(out@);
        if input {
            let i = "-i".to_owned();
            proof {
                reveal_strlit("-i");
                assert(i@ =~= seq!['-', 'i']);
            }
            out.push(i);
            assert(texts(out@) =~= mid + seq![seq!['-', 'i']]);
        } else {
            assert(texts(out@) =~= mid + Seq::<Seq<char>>::empty());
        }
        let ghost before_url = texts(out@);
        out.push(self.url.to_owned());
        assert(texts(out@) =~= before_url + seq![self.url@]);
        assert(texts(out@) =~= start + file_args(*self, input));
    }
}

fn push_files(fs: &Vec<File>, out: &mut Vec<String>, input: bool)
    ensures
        texts(final(out)@) == texts(old(out)@) + files_args(fs@, input),
{
    let ghost start = texts(out@);
    let mut i: usize = 0;
    assert(fs@.take(0) =~= Seq::<File>::empty());
    assert(start =~= start + files_args(fs@.take(0), input));
    while i < fs.len()
        invariant
            i <= fs@.len(),
            start == texts(old(out)@),
            texts(out@) == start + files_args(fs@.take(i as int), input),
        decreases fs@.len() - i,
    {
        fs[i].push_args(out, input);
        assert(fs@.take(i + 1).drop_last() =~= fs@.take(i as int));
        i = i + 1;
        assert(texts(out@) =~= start + files_args(fs@.take(i as int), input));
    }
    assert(fs@.take(i as int) =~= fs@);
}

impl<'a> FfmpegBuilder<'a> {
    /// An invocation of `ffmpeg` with no options, inputs or outputs, and its
    /// standard streams connected to nothing.
    pub fn new() -> (r: FfmpegBuilder<'a>)
        ensures
            r.options@.len() == 0,
            r.inputs@.len() == 0,
            r.outputs@.len() == 0,
            r.ffmpeg_command@ == seq!['f', 'f', 'm', 'p', 'e', 'g'],
            r.stdin == StdioMode::Null,
            r.stdout == StdioMode::Null,
            r.stderr == StdioMode::Null,
    {
        proof {
            reveal_strlit("ffmpeg");
        }
        let c = "ffmpeg";
        assert(c@ =~= seq!['f', 'f', 'm', 'p', 'e', 'g']);
        FfmpegBuilder {
            options: Vec::new(),
            inputs: Vec::new(),
            outputs: Vec::new(),
            ffmpeg_command: c,
            stdin: StdioMode::Null,
            stdout: StdioMode::Null,
            stderr: StdioMode::Null,
        }
    }

    /// Adds a global option after those already there.
    pub fn option(self, option: Parameter<'a>) -> (r: Self)
        ensures
            r.options@ == self.options@.push(option),
            r.inputs@ == self.inputs@,
            r.outputs@ == self.outputs@,
            r.ffmpeg_command == self.ffmpeg_command,
            r.stdin == self.stdin,
            r.stdout == self.stdout,
            r.stderr == self.stderr,
    {
        let mut b = self;
        b.options.push(option);
        b
    }

    /// Adds an input after those already there.
    pub fn input(self, input: File<'a>) -> (r: Self)
        ensures
            r.options@ == self.options@,
            r.inputs@ == self.inputs@.push(input),
            r.outputs@ == self.outputs@,
            r.ffmpeg_command == self.ffmpeg_command,
            r.stdin == self.stdin,
            r.stdout == self.stdout,
            r.stderr == self.stderr,
    {
        let mut b = self;
        b.inputs.push(input);
        b
    }

    /// Adds an output after those already there.
    pub fn output(self, output: File<'a>) -> (r: Self)
        ensures
            r.options@ == self.options@,
            r.inputs@ == self.inputs@,
            r.outputs@ == self.outputs@.push(output),
            r.ffmpeg_command == self.ffmpeg_command,
            r.stdin == self.stdin,
            r.stdout == self.stdout,
            r.stderr == self.stderr,
    {
        let mut b = self;
        b.outputs.push(output);
        b
    }

    pub fn stdin(self, stdin: StdioMode) -> (r: Self)
        ensures
            r.options@ == self.options@,
            r.inputs@ == self.inputs@,
            r.outputs@ == self.outputs@,
            r.ffmpeg_command == self.ffmpeg_command,
            r.stdin == stdin,
            r.stdout == self.stdout,
            r.stderr == self.stderr,
    {
        let mut b = self;
        b.stdin = stdin;
        b
    }

    pub fn stdout(self, stdout: StdioMode) -> (r: Self)
        ensures
            r.options@ == self.options@,
            r.inputs@ == self.inputs@,
            r.outputs@ == self.outputs@,
            r.ffmpeg_command == self.ffmpeg_command,
            r.stdin == self.stdin,
            r.stdout == stdout,
            r.stderr == self.stderr,
    {
        let mut b = self;
        b.stdout = stdout;
        b
    }

    pub fn stderr(self, stderr: StdioMode) -> (r: Self)
        ensures
            r.options@ == self.options@,
            r.inputs@ == self.inputs@,
            r.outputs@ == self.outputs@,
            r.ffmpeg_command == self.ffmpeg_command,
            r.stdin == self.stdin,
            r.stdout == self.stdout,
            r.stderr == stderr,
    {
        let mut b = self;
        b.stderr = stderr;
        b
    }

    /// The arguments that follow the program name.
    pub fn args(&self) -> (r: Vec<String>)
        ensures
            texts(r@) == builder_args(*self),
    {
        let mut out: Vec<String> = Vec::new();
        assert(texts(out@) =~= Seq::<Seq<char>>::empty());
        push_params(&self.options, &mut out);
        push_files(&self.inputs, &mut out, true);
        push_files(&self.outputs, &mut out, false);
        assert(texts(out@) =~= builder_args(*self));
        out
    }
}

} // verus!
