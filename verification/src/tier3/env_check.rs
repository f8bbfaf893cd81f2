//! Which renderer backends this machine has. The probes themselves are the
//! caller's; here stands what is probed and what a probe's outcome means.
use vstd::prelude::*;

use crate::lines::{
    first_line,
    first_line_or,
    is_less,
    lemma_less_total,
    lemma_less_transitive,
    text_less,
};
use crate::number::{decimal, decimal_of, digit_char};
use crate::text::{
    join,
    join2,
    join3,
    joined,
    list_has,
    lists_text,
    opt_text,
    owned,
    push_text,
    same,
    texts,
};

verus! {

/// A subprocess handler that may be invoked for certain extensions.
#[derive(Debug)]
pub struct HandlerDecl {
    /// Unique name.
    pub name: String,
    /// Broad category for diagnostic grouping.
    pub category: String,
    /// Path of the command.
    pub command: String,
    /// File extensions that this handler claims.
    pub extensions: Vec<String>,
    /// Human-readable description.
    pub description: String,
}

/// The handlers that were registered at startup.
#[derive(Debug)]
pub struct HandlerRegistry {
    pub handlers: Vec<HandlerDecl>,
}

impl HandlerRegistry {
    /// Nothing registered.
    pub fn new() -> (r: HandlerRegistry)
        ensures
            r.handlers@.len() == 0,
    {
        HandlerRegistry { handlers: Vec::new() }
    }
}

/// Registers a subprocess handler.
pub fn register_handler(registry: &mut HandlerRegistry, h: HandlerDecl)
    ensures
        final(registry).handlers@ == old(registry).handlers@.push(h),
{
    registry.handlers.push(h);
}

/// All registered handlers, whether or not their command is there.
pub fn registered_handlers(registry: &HandlerRegistry) -> (r: &Vec<HandlerDecl>)
    ensures
        r@ == registry.handlers@,
{
    &registry.handlers
}

/// The first handler from `i` on that claims an extension.
pub open spec fn handler_for(handlers: Seq<HandlerDecl>, ext: Seq<char>, i: int) -> Option<int>
    decreases handlers.len() - i,
{
    if i < 0 || i >= handlers.len() {
        None
    } else if lists_text(handlers[i].extensions@, ext) {
        Some(i)
    } else {
        handler_for(handlers, ext, i + 1)
    }
}

/// Finds the first handler that claims an extension.
pub fn find_handler(handlers: &Vec<HandlerDecl>, ext: &str) -> (r: Option<usize>)
    ensures
        match r {
            Some(i) => i < handlers@.len() && handler_for(handlers@, ext@, 0) == Some(i as int),
            None => handler_for(handlers@, ext@, 0) is None,
        },
{
    let mut i: usize = 0;
    while i < handlers.len()
        invariant
            i <= handlers@.len(),
            handler_for(handlers@, ext@, 0) == handler_for(handlers@, ext@, i as int),
        decreases handlers@.len() - i,
    {
        if list_has(&handlers[i].extensions, ext) {
            return Some(i);
        }
        i += 1;
    }
    None
}

/// The extensions that the geometry renderer claims.
pub open spec fn f3d_extensions() -> Seq<Seq<char>> {
    seq![
        "3ds"@,
        "brep"@,
        "dae"@,
        "dxf"@,
        "e"@,
        "exo"@,
        "ex2"@,
        "fbx"@,
        "glb"@,
        "gltf"@,
        "gml"@,
        "iges"@,
        "igs"@,
        "obj"@,
        "off"@,
        "p21"@,
        "ply"@,
        "pts"@,
        "step"@,
        "stl"@,
        "stp"@,
        "stpnc"@,
        "vtk"@,
        "vtm"@,
        "vti"@,
        "vtp"@,
        "vtr"@,
        "vts"@,
        "vtu"@,
        "vrml"@,
        "wrl"@,
        "210"@,
    ]
}

/// The extensions of USD geometry, which is extracted before it is rendered.
pub open spec fn usd_extensions() -> Seq<Seq<char>> {
    seq!["usdz"@, "usdc"@, "usda"@]
}

fn handler(
    name: &str,
    command: &str,
    extensions: Vec<String>,
    description: &str,
) -> (r: HandlerDecl)
    ensures
        r.name@ == name@ && r.category@ == "geometry"@ && r.command@ == command@,
        r.extensions == extensions && r.description@ == description@,
{
    HandlerDecl {
        name: owned(name),
        category: owned("geometry"),
        command: owned(command),
        extensions,
        description: owned(description),
    }
}

fn f3d_list() -> (r: Vec<String>)
    ensures
        texts(r@) == f3d_extensions(),
{
    let mut v: Vec<String> = Vec::new();
    assert(texts(v@) =~= Seq::<Seq<char>>::empty());
    push_text(&mut v, owned("3ds"));
    push_text(&mut v, owned("brep"));
    push_text(&mut v, owned("dae"));
    push_text(&mut v, owned("dxf"));
    push_text(&mut v, owned("e"));
    push_text(&mut v, owned("exo"));
    push_text(&mut v, owned("ex2"));
    push_text(&mut v, owned("fbx"));
    push_text(&mut v, owned("glb"));
    push_text(&mut v, owned("gltf"));
    push_text(&mut v, owned("gml"));
    push_text(&mut v, owned("iges"));
    push_text(&mut v, owned("igs"));
    push_text(&mut v, owned("obj"));
    push_text(&mut v, owned("off"));
    push_text(&mut v, owned("p21"));
    push_text(&mut v, owned("ply"));
    push_text(&mut v, owned("pts"));
    push_text(&mut v, owned("step"));
    push_text(&mut v, owned("stl"));
    push_text(&mut v, owned("stp"));
    push_text(&mut v, owned("stpnc"));
    push_text(&mut v, owned("vtk"));
    push_text(&mut v, owned("vtm"));
    push_text(&mut v, owned("vti"));
    push_text(&mut v, owned("vtp"));
    push_text(&mut v, owned("vtr"));
    push_text(&mut v, owned("vts"));
    push_text(&mut v, owned("vtu"));
    push_text(&mut v, owned("vrml"));
    push_text(&mut v, owned("wrl"));
    push_text(&mut v, owned("210"));
    assert(texts(v@) =~= f3d_extensions());
    v
}

/// The handlers that this server comes with: the geometry renderer, and USD
/// geometry by way of it.
pub fn standard_handlers() -> (r: Vec<HandlerDecl>)
    ensures
        r@.len() == 2,
        r@[0].name@ == "f3d"@ && r@[0].category@ == "geometry"@ && r@[0].command@ == "f3d"@,
        texts(r@[0].extensions@) == f3d_extensions(),
        r@[0].description@ == "3D geometry renderer (F3D)"@,
        r@[1].name@ == "usdz"@ && r@[1].category@ == "geometry"@ && r@[1].command@ == "(builtin)"@,
        texts(r@[1].extensions@) == usd_extensions(),
        r@[1].description@ == "USDZ/USD geometry (usd-core extract \u{2192} F3D render)"@,
{
    let mut usd: Vec<String> = Vec::new();
    assert(texts(usd@) =~= Seq::<Seq<char>>::empty());
    push_text(&mut usd, owned("usdz"));
    push_text(&mut usd, owned("usdc"));
    push_text(&mut usd, owned("usda"));
    assert(texts(usd@) =~= usd_extensions());
    let mut out: Vec<HandlerDecl> = Vec::new();
    out.push(handler("f3d", "f3d", f3d_list(), "3D geometry renderer (F3D)"));
    out.push(
        handler(
            "usdz",
            "(builtin)",
            usd,
            "USDZ/USD geometry (usd-core extract \u{2192} F3D render)",
        ),
    );
    out
}

/// How a backend was (or would be) detected.
#[derive(Debug)]
pub enum ProbeMethod {
    /// Linked into the binary, always available.
    Builtin,
    /// By opening a shared library.
    SharedLibrary { soname: String },
    /// On the search path, by a benign invocation; or at its own path.
    Executable { binary: String, check_arg: String },
    /// By an environment variable.
    RuntimeService { description: String },
}

/// A probe method by its values.
pub enum MethodView {
    Builtin,
    SharedLibrary(Seq<char>),
    Executable(Seq<char>, Seq<char>),
    RuntimeService(Seq<char>),
}

impl View for ProbeMethod {
    type V = MethodView;

    open spec fn view(&self) -> MethodView {
        match *self {
            ProbeMethod::Builtin => MethodView::Builtin,
            ProbeMethod::SharedLibrary { soname } => MethodView::SharedLibrary(soname@),
            ProbeMethod::Executable { binary, check_arg } => MethodView::Executable(
                binary@,
                check_arg@,
            ),
            ProbeMethod::RuntimeService { description } => MethodView::RuntimeService(
                description@,
            ),
        }
    }
}

/// A renderer backend.
#[derive(Debug)]
pub struct BackendInfo {
    pub name: String,
    /// What it renders.
    pub category: String,
    pub method: ProbeMethod,
    /// Whether it was detected.
    pub available: bool,
    /// Details of the detected installation.
    pub details: Option<String>,
    /// Why it is unavailable.
    pub unavailable_reason: Option<String>,
}

/// A backend by its values.
pub struct BackendView {
    pub name: Seq<char>,
    pub category: Seq<char>,
    pub method: MethodView,
    pub available: bool,
    pub details: Option<Seq<char>>,
    pub unavailable_reason: Option<Seq<char>>,
}

impl View for BackendInfo {
    type V = BackendView;

    open spec fn view(&self) -> BackendView {
        BackendView {
            name: self.name@,
            category: self.category@,
            method: self.method@,
            available: self.available,
            details: opt_text(self.details),
            unavailable_reason: opt_text(self.unavailable_reason),
        }
    }
}

/// What this machine can render.
#[derive(Debug)]
pub struct EnvReport {
    /// The backends, by name.
    pub backends: Vec<BackendInfo>,
    /// Human-readable summary.
    pub summary: String,
}

/// Backend `i` is the one of this name.
pub open spec fn backend_at(list: Seq<BackendInfo>, name: Seq<char>, i: int) -> bool {
    0 <= i < list.len() && list[i].name@ == name
}

/// The names rise from one backend to the next.
pub open spec fn by_rising_name(list: Seq<BackendInfo>) -> bool {
    forall|i: int, j: int|
        0 <= i < j < list.len() ==> text_less(#[trigger] list[i].name@, #[trigger] list[j].name@)
}

/// The backends by their names.
pub open spec fn by_name(list: Seq<BackendInfo>) -> Map<Seq<char>, BackendView> {
    Map::new(
        |k: Seq<char>| exists|i: int| backend_at(list, k, i),
        |k: Seq<char>| list[choose|i: int| backend_at(list, k, i)]@,
    )
}

proof fn lemma_names_unique(list: Seq<BackendInfo>, i: int, j: int)
    requires
        by_rising_name(list),
        0 <= i < list.len(),
        0 <= j < list.len(),
        list[i].name@ == list[j].name@,
    ensures
        i == j,
{
    lemma_less_total(list[i].name@, list[j].name@);
    if i < j {
        assert(text_less(list[i].name@, list[j].name@));
    } else if j < i {
        assert(text_less(list[j].name@, list[i].name@));
    }
}

proof fn lemma_by_name(list: Seq<BackendInfo>, i: int)
    requires
        by_rising_name(list),
        0 <= i < list.len(),
    ensures
        by_name(list).dom().contains(list[i].name@),
        by_name(list)[list[i].name@] == list[i]@,
{
    let k = list[i].name@;
    assert(backend_at(list, k, i));
    let c = choose|c: int| backend_at(list, k, c);
    assert(backend_at(list, k, c));
    lemma_names_unique(list, c, i);
}

impl EnvReport {
    /// The names rise, so that no backend is listed twice.
    pub open spec fn wf(&self) -> bool {
        by_rising_name(self.backends@)
    }

    /// The backends by their names.
    pub open spec fn entries(&self) -> Map<Seq<char>, BackendView> {
        by_name(self.backends@)
    }

    /// A report of no backends.
    pub fn new() -> (r: EnvReport)
        ensures
            r.wf(),
            r.entries() == Map::<Seq<char>, BackendView>::empty(),
            r.summary@ == Seq::<char>::empty(),
    {
        let r = EnvReport { backends: Vec::new(), summary: String::new() };
        assert(r.entries() =~= Map::<Seq<char>, BackendView>::empty());
        r
    }

    /// The first place whose backend's name does not come before `name`.
    fn place(&self, name: &str) -> (r: usize)
        requires
            self.wf(),
        ensures
            r <= self.backends@.len(),
            forall|i: int|
                0 <= i < r ==> text_less(#[trigger] self.backends@[i].name@, name@),
            r < self.backends@.len() ==> !text_less(self.backends@[r as int].name@, name@),
    {
        let mut i: usize = 0;
        while i < self.backends.len()
            invariant
                i <= self.backends@.len(),
                forall|j: int|
                    0 <= j < i ==> text_less(#[trigger] self.backends@[j].name@, name@),
            decreases self.backends@.len() - i,
        {
            if !is_less(self.backends[i].name.as_str(), name) {
                return i;
            }
            i += 1;
        }
        i
    }

    /// Puts a backend into the report, in place of one of its name.
    pub fn insert(&mut self, info: BackendInfo)
        requires
            old(self).wf(),
        ensures
            final(self).wf(),
            final(self).entries() == old(self).entries().insert(info.name@, info@),
            final(self).summary == old(self).summary,
    {
        let ghost before = self.backends@;
        let ghost name = info.name@;
        let p: usize = self.place(info.name.as_str());
        if p < self.backends.len() && same(self.backends[p].name.as_str(), info.name.as_str()) {
            self.backends.set(p, info);
            assert(self.backends@ =~= before.update(p as int, info));
            assert forall|i: int, j: int| 0 <= i < j < self.backends@.len() implies text_less(
                #[trigger] self.backends@[i].name@,
                #[trigger] self.backends@[j].name@,
            ) by {
                assert(text_less(before[i].name@, before[j].name@));
            }
        } else {
            proof {
                if p < before.len() {
                    lemma_less_total(before[p as int].name@, name);
                }
            }
            self.backends.insert(p, info);
            assert(self.backends@ =~= before.insert(p as int, info));
            assert forall|i: int, j: int| 0 <= i < j < self.backends@.len() implies text_less(
                #[trigger] self.backends@[i].name@,
                #[trigger] self.backends@[j].name@,
            ) by {
                lemma_inserted_rises(before, info, p as int, i, j);
            }
        }
        proof {
            lemma_inserted_entries(before, self.backends@, info, p as int);
        }
    }

    /// The backend of a name, if it is listed.
    pub fn get(&self, name: &str) -> (r: Option<&BackendInfo>)
        requires
            self.wf(),
        ensures
            match r {
                Some(b) => self.entries().dom().contains(name@) && b@ == self.entries()[name@],
                None => !self.entries().dom().contains(name@),
            },
    {
        let mut i: usize = 0;
        while i < self.backends.len()
            invariant
                i <= self.backends@.len(),
                self.wf(),
                forall|j: int| 0 <= j < i ==> (#[trigger] self.backends@[j]).name@ != name@,
            decreases self.backends@.len() - i,
        {
            if same(self.backends[i].name.as_str(), name) {
                proof {
                    lemma_by_name(self.backends@, i as int);
                }
                return Some(&self.backends[i]);
            }
            i += 1;
        }
        None
    }

    /// Whether a backend is listed and was detected.
    pub fn is_available(&self, name: &str) -> (r: bool)
        requires
            self.wf(),
        ensures
            r == available_in(self.entries(), name@),
    {
        match self.get(name) {
            Some(b) => b.available,
            None => false,
        }
    }
}

/// A backend is listed and was detected.
pub open spec fn available_in(entries: Map<Seq<char>, BackendView>, name: Seq<char>) -> bool {
    entries.dom().contains(name) && entries[name].available
}

proof fn lemma_inserted_rises(before: Seq<BackendInfo>, info: BackendInfo, p: int, i: int, j: int)
    requires
        by_rising_name(before),
        0 <= p <= before.len(),
        forall|i: int| 0 <= i < p ==> text_less(#[trigger] before[i].name@, info.name@),
        p < before.len() ==> text_less(info.name@, before[p].name@),
        0 <= i < j < before.len() + 1,
    ensures
        text_less(before.insert(p, info)[i].name@, before.insert(p, info)[j].name@),
{
    let after = before.insert(p, info);
    if j < p {
        assert(text_less(before[i].name@, before[j].name@));
    } else if j == p {
        assert(after[i] == before[i]);
    } else if i < p {
        assert(text_less(before[i].name@, before[j - 1].name@));
    } else if i == p {
        if j - 1 > p {
            assert(text_less(before[p].name@, before[j - 1].name@));
            lemma_less_transitive(info.name@, before[p].name@, before[j - 1].name@);
        }
    } else {
        assert(text_less(before[i - 1].name@, before[j - 1].name@));
    }
}

proof fn lemma_inserted_entries(
    before: Seq<BackendInfo>,
    after: Seq<BackendInfo>,
    info: BackendInfo,
    p: int,
)
    requires
        by_rising_name(before),
        by_rising_name(after),
        (0 <= p < before.len() && before[p].name@ == info.name@ && after == before.update(p, info))
            || (0 <= p <= before.len() && after == before.insert(p, info)),
    ensures
        by_name(after) == by_name(before).insert(info.name@, info@),
{
    let name = info.name@;
    let m = by_name(after);
    let w = by_name(before).insert(name, info@);
    assert(after[p] == info);
    lemma_by_name(after, p);
    assert forall|k: Seq<char>| m.dom().contains(k) <==> w.dom().contains(k) by {
        if m.dom().contains(k) && k != name {
            let i = choose|i: int| backend_at(after, k, i);
            assert(backend_at(after, k, i));
            if after == before.update(p, info) {
                assert(backend_at(before, k, i));
            } else if i < p {
                assert(backend_at(before, k, i));
            } else {
                assert(backend_at(before, k, i - 1));
            }
        }
        if by_name(before).dom().contains(k) && k != name {
            let i = choose|i: int| backend_at(before, k, i);
            assert(backend_at(before, k, i));
            if after == before.update(p, info) {
                assert(backend_at(after, k, i));
            } else if i < p {
                assert(backend_at(after, k, i));
            } else {
                assert(backend_at(after, k, i + 1));
            }
        }
    }
    assert forall|k: Seq<char>| m.dom().contains(k) implies m[k] == w[k] by {
        if k != name {
            let i = choose|i: int| backend_at(after, k, i);
            assert(backend_at(after, k, i));
            lemma_by_name(after, i);
            if after == before.update(p, info) {
                lemma_by_name(before, i);
            } else if i < p {
                lemma_by_name(before, i);
            } else {
                lemma_by_name(before, i - 1);
            }
        }
    }
    assert(m =~= w);
}

/// What a probe found.
#[derive(Debug)]
pub struct Finding {
    pub available: bool,
    pub details: Option<String>,
    pub reason: Option<String>,
}

/// A finding by its values.
pub struct FindingView {
    pub available: bool,
    pub details: Option<Seq<char>>,
    pub reason: Option<Seq<char>>,
}

impl View for Finding {
    type V = FindingView;

    open spec fn view(&self) -> FindingView {
        FindingView {
            available: self.available,
            details: opt_text(self.details),
            reason: opt_text(self.reason),
        }
    }
}

/// The backend was detected, with these details.
pub open spec fn detected(details: Seq<char>) -> FindingView {
    FindingView { available: true, details: Some(details), reason: None }
}

/// The backend is not there, for this reason.
pub open spec fn absent(reason: Seq<char>) -> FindingView {
    FindingView { available: false, details: None, reason: Some(reason) }
}

/// Judges whether a shared library could be opened.
pub fn judge_dlopen(soname: &str, error: &Option<String>) -> (r: Finding)
    ensures
        r@ == library_found(soname@, opt_text(*error)),
{
    match error {
        None => Finding {
            available: true,
            details: Some(join3("dlopen(", soname, ") succeeded")),
            reason: None,
        },
        Some(e) => Finding {
            available: false,
            details: None,
            reason: Some(join2(join3("dlopen(", soname, "): ").as_str(), e.as_str())),
        },
    }
}

/// What came of looking for a tool on the search path and running it.
#[derive(Debug)]
pub enum ToolProbe {
    /// It is not there.
    NotFound { error: String },
    /// It ran, and wrote this.
    Ran { path: String, stdout: String },
    /// It is there, and could not be run.
    Broken { path: String, error: String },
}

/// What a tool's probe means.
pub open spec fn tool_found(binary: Seq<char>, check_arg: Seq<char>, p: ToolProbe) -> FindingView {
    match p {
        ToolProbe::NotFound { error } => absent("which("@ + binary + "): "@ + error@),
        ToolProbe::Ran { path, stdout } => detected(
            path@ + ": "@ + match first_line(stdout@) {
                Some(l) => l,
                None => "(no output)"@,
            },
        ),
        ToolProbe::Broken { path, error } => FindingView {
            available: false,
            details: Some("found at "@ + path@),
            reason: Some(binary + " "@ + check_arg + ": "@ + error@),
        },
    }
}

/// Judges whether a tool is there and runs.
pub fn judge_executable(binary: &str, check_arg: &str, probe: &ToolProbe) -> (r: Finding)
    ensures
        r@ == tool_found(binary@, check_arg@, *probe),
{
    match probe {
        ToolProbe::NotFound { error } => Finding {
            available: false,
            details: None,
            reason: Some(join2(join3("which(", binary, "): ").as_str(), error.as_str())),
        },
        ToolProbe::Ran { path, stdout } => {
            let first = first_line_or(stdout.as_str(), "(no output)");
            Finding {
                available: true,
                details: Some(join3(path.as_str(), ": ", first.as_str())),
                reason: None,
            }
        },
        ToolProbe::Broken { path, error } => {
            let call = join3(binary, " ", check_arg);
            Finding {
                available: false,
                details: Some(join2("found at ", path.as_str())),
                reason: Some(join3(call.as_str(), ": ", error.as_str())),
            }
        },
    }
}

/// What stands at a handler's path.
#[derive(Debug)]
pub enum FileProbe {
    /// A regular file with these permission bits.
    File { mode: u32 },
    /// Something else.
    Other,
    /// Nothing that could be looked at.
    Missing { error: String },
}

/// The octal form of a number.
pub open spec fn octal(n: nat) -> Seq<char>
    decreases n,
{
    if n < 8 {
        seq![digit_char(n as int)]
    } else {
        octal(n / 8).push(digit_char((n % 8) as int))
    }
}

/// Writes a number in octal.
pub fn octal_of(n: u32) -> (r: String)
    ensures
        r@ == octal(n as nat),
    decreases n,
{
    let d: u8 = (48 + n % 8) as u8;
    let c: char = d as char;
    if n < 8 {
        let mut s = String::new();
        s.push(c);
        assert(s@ =~= octal(n as nat));
        s
    } else {
        let mut s = octal_of(n / 8);
        s.push(c);
        s
    }
}

/// What the probe of a handler's path means: it has to be a regular file that
/// someone may execute.
pub open spec fn file_found(path: Seq<char>, p: FileProbe) -> FindingView {
    match p {
        FileProbe::File { mode } => if mode & 0o111 != 0 {
            detected("executable at "@ + path)
        } else {
            absent(path + ": not executable (mode "@ + octal(mode as nat) + ")"@)
        },
        FileProbe::Other => absent(path + ": not a regular file"@),
        FileProbe::Missing { error } => absent(path + ": "@ + error@),
    }
}

/// Judges whether a handler's command can be executed.
pub fn judge_executable_at(path: &str, probe: &FileProbe) -> (r: Finding)
    ensures
        r@ == file_found(path@, *probe),
{
    match probe {
        FileProbe::File { mode } => {
            let m: u32 = *mode;
            if m & 0o111 != 0 {
                Finding {
                    available: true,
                    details: Some(join2("executable at ", path)),
                    reason: None,
                }
            } else {
                let oct = octal_of(m);
                let start = join2(path, ": not executable (mode ");
                Finding {
                    available: false,
                    details: None,
                    reason: Some(join3(start.as_str(), oct.as_str(), ")")),
                }
            }
        },
        FileProbe::Other => Finding {
            available: false,
            details: None,
            reason: Some(join2(path, ": not a regular file")),
        },
        FileProbe::Missing { error } => Finding {
            available: false,
            details: None,
            reason: Some(join3(path, ": ", error.as_str())),
        },
    }
}

/// An optional shared library, and why it could not be opened, if it could not.
#[derive(Debug)]
pub struct LibraryProbe {
    pub name: String,
    pub category: String,
    pub soname: String,
    pub error: Option<String>,
}

/// What the probe of a shared library means.
pub open spec fn library_found(soname: Seq<char>, error: Option<Seq<char>>) -> FindingView {
    match error {
        None => detected("dlopen("@ + soname + ") succeeded"@),
        Some(e) => absent("dlopen("@ + soname + "): "@ + e),
    }
}

/// The entries with the first `n` libraries.
pub open spec fn with_libraries(
    m: Map<Seq<char>, BackendView>,
    libraries: Seq<LibraryProbe>,
    n: int,
) -> Map<Seq<char>, BackendView>
    decreases n,
{
    if n <= 0 {
        m
    } else {
        let l = libraries[n - 1];
        let f = library_found(l.soname@, opt_text(l.error));
        with_libraries(m, libraries, n - 1).insert(
            l.name@,
            BackendView {
                name: l.name@,
                category: l.category@,
                method: MethodView::SharedLibrary(l.soname@),
                available: f.available,
                details: f.details,
                unavailable_reason: f.reason,
            },
        )
    }
}

/// Lists the optional shared libraries.
pub fn probe_shared_libraries(report: &mut EnvReport, libraries: &Vec<LibraryProbe>)
    requires
        old(report).wf(),
    ensures
        final(report).wf(),
        final(report).entries() == with_libraries(
            old(report).entries(),
            libraries@,
            libraries@.len() as int,
        ),
        final(report).summary == old(report).summary,
{
    let ghost start = report.entries();
    let mut i: usize = 0;
    while i < libraries.len()
        invariant
            i <= libraries@.len(),
            report.wf(),
            report.entries() == with_libraries(start, libraries@, i as int),
            report.summary == old(report).summary,
        decreases libraries@.len() - i,
    {
        let l = &libraries[i];
        let f = judge_dlopen(l.soname.as_str(), &l.error);
        report.insert(
            BackendInfo {
                name: l.name.clone(),
                category: l.category.clone(),
                method: ProbeMethod::SharedLibrary { soname: l.soname.clone() },
                available: f.available,
                details: f.details,
                unavailable_reason: f.reason,
            },
        );
        i += 1;
    }
}

/// The outcomes of all probes, those of the handlers in their order.
#[derive(Debug)]
pub struct EnvProbes {
    pub libraries: Vec<LibraryProbe>,
    pub ffmpeg: ToolProbe,
    pub gm: ToolProbe,
    pub oiiotool: ToolProbe,
    pub bwrap: ToolProbe,
    pub handlers: Vec<FileProbe>,
    /// `DISPLAY` and `WAYLAND_DISPLAY`, where they are set.
    pub display: Option<String>,
    pub wayland_display: Option<String>,
}

/// A backend that is linked into the binary.
pub open spec fn builtin(name: Seq<char>, category: Seq<char>, desc: Seq<char>) -> BackendView {
    BackendView {
        name,
        category,
        method: MethodView::Builtin,
        available: true,
        details: Some(desc),
        unavailable_reason: None,
    }
}

/// The entries with the linked backends.
pub open spec fn with_builtins(m: Map<Seq<char>, BackendView>) -> Map<Seq<char>, BackendView> {
    m.insert("ffmpeg"@, builtin("ffmpeg"@, "video"@, "libav-based decode (FFmpeg static)"@)).insert(
        "image_crate"@,
        builtin("image_crate"@, "image"@, "Pure-Rust image crate decode"@),
    ).insert("resvg"@, builtin("resvg"@, "vector"@, "Pure-Rust SVG renderer (resvg)"@)).insert(
        "jxl_oxide"@,
        builtin("jxl_oxide"@, "image"@, "Pure-Rust JPEG XL decoder"@),
    ).insert(
        "raw_preview"@,
        builtin("raw_preview"@, "image"@, "TIFF/RAW embedded preview extractor"@),
    )
}

fn builtin_info(name: &str, category: &str, desc: &str) -> (r: BackendInfo)
    ensures
        r@ == builtin(name@, category@, desc@),
{
    BackendInfo {
        name: owned(name),
        category: owned(category),
        method: ProbeMethod::Builtin,
        available: true,
        details: Some(owned(desc)),
        unavailable_reason: None,
    }
}

/// Lists the backends that are linked into the binary.
pub fn probe_builtins(report: &mut EnvReport)
    requires
        old(report).wf(),
    ensures
        final(report).wf(),
        final(report).entries() == with_builtins(old(report).entries()),
        final(report).summary == old(report).summary,
{
    report.insert(builtin_info("ffmpeg", "video", "libav-based decode (FFmpeg static)"));
    report.insert(builtin_info("image_crate", "image", "Pure-Rust image crate decode"));
    report.insert(builtin_info("resvg", "vector", "Pure-Rust SVG renderer (resvg)"));
    report.insert(builtin_info("jxl_oxide", "image", "Pure-Rust JPEG XL decoder"));
    report.insert(builtin_info("raw_preview", "image", "TIFF/RAW embedded preview extractor"));
}

/// A backend that runs as an executable, and what its probe found.
pub open spec fn executable(
    name: Seq<char>,
    category: Seq<char>,
    binary: Seq<char>,
    check_arg: Seq<char>,
    f: FindingView,
) -> BackendView {
    BackendView {
        name,
        category,
        method: MethodView::Executable(binary, check_arg),
        available: f.available,
        details: f.details,
        unavailable_reason: f.reason,
    }
}

fn executable_info(name: &str, category: &str, binary: &str, check_arg: &str, f: Finding) -> (r:
    BackendInfo)
    ensures
        r@ == executable(name@, category@, binary@, check_arg@, f@),
{
    BackendInfo {
        name: owned(name),
        category: owned(category),
        method: ProbeMethod::Executable { binary: owned(binary), check_arg: owned(check_arg) },
        available: f.available,
        details: f.details,
        unavailable_reason: f.reason,
    }
}

/// The entries with a tool on the search path.
pub open spec fn with_tool(
    m: Map<Seq<char>, BackendView>,
    name: Seq<char>,
    category: Seq<char>,
    binary: Seq<char>,
    check_arg: Seq<char>,
    p: ToolProbe,
) -> Map<Seq<char>, BackendView> {
    m.insert(
        name,
        executable(name, category, binary, check_arg, tool_found(binary, check_arg, p)),
    )
}

/// The entries with the four tools.
pub open spec fn with_tools(m: Map<Seq<char>, BackendView>, p: EnvProbes) -> Map<
    Seq<char>,
    BackendView,
> {
    let a = with_tool(m, "ffmpeg_cli"@, "image"@, "ffmpeg"@, "-version"@, p.ffmpeg);
    let b = with_tool(a, "magick"@, "image"@, "gm"@, "version"@, p.gm);
    let c = with_tool(b, "oiiotool"@, "image"@, "oiiotool"@, "--version"@, p.oiiotool);
    with_tool(c, "bwrap"@, "runtime"@, "bwrap"@, "--version"@, p.bwrap)
}

/// The entries with the first `n` handlers: a later one replaces an earlier of
/// the same name.
pub open spec fn with_handlers(
    m: Map<Seq<char>, BackendView>,
    handlers: Seq<HandlerDecl>,
    probes: Seq<FileProbe>,
    n: int,
) -> Map<Seq<char>, BackendView>
    decreases n,
{
    if n <= 0 {
        m
    } else {
        let h = handlers[n - 1];
        with_handlers(m, handlers, probes, n - 1).insert(
            h.name@,
            executable(
                h.name@,
                h.category@,
                h.command@,
                ""@,
                file_found(h.command@, probes[n - 1]),
            ),
        )
    }
}

fn list_tool(
    report: &mut EnvReport,
    name: &str,
    category: &str,
    binary: &str,
    check_arg: &str,
    probe: &ToolProbe,
)
    requires
        old(report).wf(),
    ensures
        final(report).wf(),
        final(report).entries() == with_tool(
            old(report).entries(),
            name@,
            category@,
            binary@,
            check_arg@,
            *probe,
        ),
        final(report).summary == old(report).summary,
{
    let f = judge_executable(binary, check_arg, probe);
    report.insert(executable_info(name, category, binary, check_arg, f));
}

/// Lists the tools on the search path and the registered handlers.
pub fn probe_executables(report: &mut EnvReport, handlers: &Vec<HandlerDecl>, probes: &EnvProbes)
    requires
        old(report).wf(),
        handlers@.len() == probes.handlers@.len(),
    ensures
        final(report).wf(),
        final(report).entries() == with_handlers(
            with_tools(old(report).entries(), *probes),
            handlers@,
            probes.handlers@,
            handlers@.len() as int,
        ),
        final(report).summary == old(report).summary,
{
    list_tool(report, "ffmpeg_cli", "image", "ffmpeg", "-version", &probes.ffmpeg);
    list_tool(report, "magick", "image", "gm", "version", &probes.gm);
    list_tool(report, "oiiotool", "image", "oiiotool", "--version", &probes.oiiotool);
    list_tool(report, "bwrap", "runtime", "bwrap", "--version", &probes.bwrap);
    let ghost start = report.entries();
    let mut i: usize = 0;
    while i < handlers.len()
        invariant
            i <= handlers@.len(),
            handlers@.len() == probes.handlers@.len(),
            report.wf(),
            report.entries() == with_handlers(start, handlers@, probes.handlers@, i as int),
            report.summary == old(report).summary,
        decreases handlers@.len() - i,
    {
        let h = &handlers[i];
        let f = judge_executable_at(h.command.as_str(), &probes.handlers[i]);
        report.insert(
            executable_info(h.name.as_str(), h.category.as_str(), h.command.as_str(), "", f),
        );
        i += 1;
    }
}

/// The display server, by the first of the two variables that is set.
pub open spec fn display_entry(display: Option<Seq<char>>, wayland: Option<Seq<char>>) -> BackendView {
    let set = if display is Some {
        display
    } else {
        wayland
    };
    BackendView {
        name: "display_server"@,
        category: "runtime"@,
        method: MethodView::RuntimeService("X11/Wayland display server for headful renderers"@),
        available: set is Some,
        details: match set {
            Some(d) => Some("display server: "@ + d),
            None => None,
        },
        unavailable_reason: match set {
            Some(_) => None,
            None => Some("no DISPLAY or WAYLAND_DISPLAY set"@),
        },
    }
}

/// Lists the display server.
pub fn probe_runtime_services(
    report: &mut EnvReport,
    display: &Option<String>,
    wayland: &Option<String>,
)
    requires
        old(report).wf(),
    ensures
        final(report).wf(),
        final(report).entries() == old(report).entries().insert(
            "display_server"@,
            display_entry(opt_text(*display), opt_text(*wayland)),
        ),
        final(report).summary == old(report).summary,
{
    let set: Option<String> = match (display, wayland) {
        (Some(d), _) => Some(d.clone()),
        (None, Some(w)) => Some(w.clone()),
        (None, None) => None,
    };
    let (available, details, reason) = match set {
        Some(d) => (true, Some(join2("display server: ", d.as_str())), None),
        None => (false, None, Some(owned("no DISPLAY or WAYLAND_DISPLAY set"))),
    };
    report.insert(
        BackendInfo {
            name: owned("display_server"),
            category: owned("runtime"),
            method: ProbeMethod::RuntimeService {
                description: owned("X11/Wayland display server for headful renderers"),
            },
            available,
            details,
            unavailable_reason: reason,
        },
    );
}

/// The names of the first `n` backends that are (or are not) available.
pub open spec fn names_where(list: Seq<BackendInfo>, n: int, available: bool) -> Seq<Seq<char>>
    decreases n,
{
    if n <= 0 {
        Seq::empty()
    } else if list[n - 1].available == available {
        names_where(list, n - 1, available).push(list[n - 1].name@)
    } else {
        names_where(list, n - 1, available)
    }
}

/// The summary of a list of backends.
pub open spec fn summary_of(list: Seq<BackendInfo>) -> Seq<char> {
    let yes = names_where(list, list.len() as int, true);
    let no = names_where(list, list.len() as int, false);
    decimal(yes.len()) + " backends available ("@ + joined(yes, ", "@) + "), "@ + decimal(no.len())
        + " unavailable ("@ + joined(no, ", "@) + ")"@
}

fn collect_names(list: &Vec<BackendInfo>, available: bool) -> (r: Vec<String>)
    ensures
        texts(r@) == names_where(list@, list@.len() as int, available),
{
    let mut out: Vec<String> = Vec::new();
    let mut i: usize = 0;
    assert(texts(out@) =~= Seq::<Seq<char>>::empty());
    while i < list.len()
        invariant
            i <= list@.len(),
            texts(out@) == names_where(list@, i as int, available),
        decreases list@.len() - i,
    {
        if list[i].available == available {
            push_text(&mut out, list[i].name.clone());
        }
        i += 1;
    }
    out
}

/// Writes the summary of a list of backends.
pub fn summarize(list: &Vec<BackendInfo>) -> (r: String)
    ensures
        r@ == summary_of(list@),
{
    let yes = collect_names(list, true);
    let no = collect_names(list, false);
    assert(texts(yes@).len() == yes@.len() && texts(no@).len() == no@.len());
    let mut s = decimal_of(yes.len() as u64);
    s = join3(s.as_str(), " backends available (", join(&yes, ", ").as_str());
    s = join3(s.as_str(), "), ", decimal_of(no.len() as u64).as_str());
    s = join3(s.as_str(), " unavailable (", join(&no, ", ").as_str());
    join2(s.as_str(), ")")
}

/// Every backend is counted in a summary, once.
pub proof fn law_summary_counts_all(list: Seq<BackendInfo>, n: int)
    requires
        0 <= n <= list.len(),
    ensures
        names_where(list, n, true).len() + names_where(list, n, false).len() == n,
    decreases n,
{
    if n > 0 {
        law_summary_counts_all(list, n - 1);
    }
}

/// The entries that all probes together give: the linked backends, the
/// libraries, the tools, the handlers and the display server, in this order.
pub open spec fn report_entries(handlers: Seq<HandlerDecl>, p: EnvProbes) -> Map<
    Seq<char>,
    BackendView,
> {
    with_handlers(
        with_tools(
            with_libraries(
                with_builtins(Map::<Seq<char>, BackendView>::empty()),
                p.libraries@,
                p.libraries@.len() as int,
            ),
            p,
        ),
        handlers,
        p.handlers@,
        handlers.len() as int,
    ).insert(
        "display_server"@,
        display_entry(opt_text(p.display), opt_text(p.wayland_display)),
    )
}

/// Libraries take no entry away.
proof fn lemma_libraries_keep(
    m: Map<Seq<char>, BackendView>,
    libraries: Seq<LibraryProbe>,
    n: int,
    name: Seq<char>,
)
    requires
        m.dom().contains(name),
    ensures
        with_libraries(m, libraries, n).dom().contains(name),
    decreases n,
{
    if n > 0 {
        lemma_libraries_keep(m, libraries, n - 1, name);
    }
}

/// Handlers take no entry away.
proof fn lemma_handlers_keep(
    m: Map<Seq<char>, BackendView>,
    handlers: Seq<HandlerDecl>,
    probes: Seq<FileProbe>,
    n: int,
    name: Seq<char>,
)
    requires
        m.dom().contains(name),
    ensures
        with_handlers(m, handlers, probes, n).dom().contains(name),
    decreases n,
{
    if n > 0 {
        lemma_handlers_keep(m, handlers, probes, n - 1, name);
    }
}

/// The name of a backend that is linked into the binary.
pub open spec fn is_builtin(name: Seq<char>) -> bool {
    name == "ffmpeg"@ || name == "image_crate"@ || name == "resvg"@ || name == "jxl_oxide"@ || name
        == "raw_preview"@
}

/// Whatever the probes find and whatever handlers there are, the backends that are
/// linked into the binary are in the report.
pub proof fn law_builtins_reported(handlers: Seq<HandlerDecl>, p: EnvProbes, name: Seq<char>)
    requires
        is_builtin(name),
    ensures
        report_entries(handlers, p).dom().contains(name),
{
    let builtins = with_builtins(Map::<Seq<char>, BackendView>::empty());
    let n = p.libraries@.len() as int;
    assert(builtins.dom().contains(name));
    lemma_libraries_keep(builtins, p.libraries@, n, name);
    let libraries = with_libraries(builtins, p.libraries@, n);
    lemma_handlers_keep(
        with_tools(libraries, p),
        handlers,
        p.handlers@,
        handlers.len() as int,
        name,
    );
}

/// Makes the report of all probes.
pub fn build_report(handlers: &Vec<HandlerDecl>, probes: &EnvProbes) -> (r: EnvReport)
    requires
        handlers@.len() == probes.handlers@.len(),
    ensures
        r.wf(),
        r.entries() == report_entries(handlers@, *probes),
        r.summary@ == summary_of(r.backends@),
{
    let mut report = EnvReport::new();
    probe_builtins(&mut report);
    probe_shared_libraries(&mut report, &probes.libraries);
    probe_executables(&mut report, handlers, probes);
    probe_runtime_services(&mut report, &probes.display, &probes.wayland_display);
    report.summary = summarize(&report.backends);
    report
}

/// The report of the first probe, once there is one.
#[derive(Debug)]
pub struct EnvCache {
    pub report: Option<EnvReport>,
}

impl EnvCache {
    /// Nothing has been probed yet.
    pub fn new() -> (r: EnvCache)
        ensures
            r.report is None,
    {
        EnvCache { report: None }
    }
}

/// Takes the outcomes of all probes. The report of the first time stays.
pub fn probe_environment(cache: &mut EnvCache, handlers: &Vec<HandlerDecl>, probes: &EnvProbes)
    requires
        handlers@.len() == probes.handlers@.len(),
    ensures
        old(cache).report is Some ==> *final(cache) == *old(cache),
        old(cache).report is None ==> {
            &&& final(cache).report matches Some(r) && r.wf() && r.entries() == report_entries(
                handlers@,
                *probes,
            ) && r.summary@ == summary_of(r.backends@)
        },
{
    if cache.report.is_none() {
        cache.report = Some(build_report(handlers, probes));
    }
}

/// The cached report, if there is one yet.
pub fn cached_report(cache: &EnvCache) -> (r: Option<&EnvReport>)
    ensures
        match r {
            Some(x) => cache.report == Some(*x),
            None => cache.report is None,
        },
{
    cache.report.as_ref()
}

} // verus!
