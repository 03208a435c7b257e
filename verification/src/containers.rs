//! Containers: where the engine is found, what it is asked for, and what comes
//! back.

use std::path::PathBuf;
use vstd::prelude::*;
use vstd::utf8::{encode_utf8, valid_utf8};

use crate::config::Platform;
use crate::domain::target::ImageTag;
use crate::paths::{path_shown, show_path};
use crate::text::scan::{contains, has_part, opt_str, opt_text, texts};

verus! {

/// A folder that a container sees under another name.
pub struct Volume {
    pub src: PathBuf,
    pub dest: PathBuf,
}

/// Where the container engine listens.
#[derive(Debug)]
pub enum Endpoint {
    /// The address in the environment.
    Host(String),
    /// A Unix socket.
    Socket(String),
    /// A named pipe.
    Pipe(String),
    /// Wherever the engine usually listens.
    LocalDefaults,
}

/// What an [`Endpoint`] holds.
pub enum EndpointView {
    Host(Seq<char>),
    Socket(Seq<char>),
    Pipe(Seq<char>),
    LocalDefaults,
}

impl View for Endpoint {
    type V = EndpointView;

    open spec fn view(&self) -> EndpointView {
        match *self {
            Endpoint::Host(s) => EndpointView::Host(s@),
            Endpoint::Socket(s) => EndpointView::Socket(s@),
            Endpoint::Pipe(s) => EndpointView::Pipe(s@),
            Endpoint::LocalDefaults => EndpointView::LocalDefaults,
        }
    }
}

/// The seconds after which a request to a socket or a pipe is given up.
pub const ENDPOINT_TIMEOUT: u64 = 120;

/// The socket or pipe of a rootless Podman, where the platform has one.
pub open spec fn podman_path(platform: Platform, runtime_dir: Option<Seq<char>>) -> Option<
    Seq<char>,
> {
    match platform {
        Platform::Windows => Some("\\\\.\\pipe\\podman-machine-default"@),
        Platform::Linux | Platform::MacOs | Platform::OtherUnix => Some(
            match runtime_dir {
                Some(dir) => dir + "/podman/podman.sock"@,
                None => "/run/podman/podman.sock"@,
            },
        ),
        Platform::Other => None,
    }
}

/// The address that the environment gives, the first of the two that is set.
pub open spec fn engine_host(
    docker_host: Option<Seq<char>>,
    container_host: Option<Seq<char>>,
) -> Option<Seq<char>> {
    match docker_host {
        Some(h) => Some(h),
        None => container_host,
    }
}

/// The socket or pipe of a rootless Podman, where the platform has one.
pub fn podman_candidate(platform: Platform, runtime_dir: Option<&str>) -> (r: Option<String>)
    ensures
        opt_text(r) == podman_path(platform, opt_str(runtime_dir)),
{
    match platform {
        Platform::Windows => Some("\\\\.\\pipe\\podman-machine-default".to_string()),
        Platform::Other => None,
        _ => match runtime_dir {
            Some(dir) => {
                let mut s: String = dir.to_string();
                s.append("/podman/podman.sock");
                Some(s)
            },
            None => Some("/run/podman/podman.sock".to_string()),
        },
    }
}

/// Where to connect.
pub open spec fn endpoint_of(
    platform: Platform,
    docker_host: Option<Seq<char>>,
    container_host: Option<Seq<char>>,
    runtime_dir: Option<Seq<char>>,
    candidate_exists: bool,
) -> EndpointView {
    match engine_host(docker_host, container_host) {
        Some(h) => EndpointView::Host(h),
        None => match podman_path(platform, runtime_dir) {
            Some(p) => if !candidate_exists {
                EndpointView::LocalDefaults
            } else if platform is Windows {
                EndpointView::Pipe(p)
            } else {
                EndpointView::Socket(p)
            },
            None => EndpointView::LocalDefaults,
        },
    }
}

/// Where to connect. `candidate_exists` says whether the socket or pipe that
/// [`podman_candidate`] names is there.
pub fn choose_endpoint(
    platform: Platform,
    docker_host: Option<&str>,
    container_host: Option<&str>,
    runtime_dir: Option<&str>,
    candidate_exists: bool,
) -> (r: Endpoint)
    ensures
        match engine_host(opt_str(docker_host), opt_str(container_host)) {
            Some(h) => r matches Endpoint::Host(s) && s@ == h,
            None => match podman_path(platform, opt_str(runtime_dir)) {
                Some(p) => if !candidate_exists {
                    r is LocalDefaults
                } else if platform is Windows {
                    r matches Endpoint::Pipe(s) && s@ == p
                } else {
                    r matches Endpoint::Socket(s) && s@ == p
                },
                None => r is LocalDefaults,
            },
        },
        r@ == endpoint_of(
            platform,
            opt_str(docker_host),
            opt_str(container_host),
            opt_str(runtime_dir),
            candidate_exists,
        ),
{
    if let Some(h) = docker_host {
        return Endpoint::Host(h.to_string());
    }
    if let Some(h) = container_host {
        return Endpoint::Host(h.to_string());
    }
    match podman_candidate(platform, runtime_dir) {
        Some(p) => if !candidate_exists {
            Endpoint::LocalDefaults
        } else {
            match platform {
                Platform::Windows => Endpoint::Pipe(p),
                _ => Endpoint::Socket(p),
            }
        },
        None => Endpoint::LocalDefaults,
    }
}

/// The suffix of a bind.
pub open spec fn suffix_of(platform: Platform, selinux: bool) -> Seq<char> {
    if platform is Linux && selinux {
        ":z"@
    } else {
        ""@
    }
}

/// The suffix of a bind: on Linux with SELinux the folder is relabelled.
pub fn get_vol_suffix(platform: Platform, selinux: bool) -> (r: &'static str)
    ensures
        r@ == if platform is Linux && selinux {
            ":z"@
        } else {
            ""@
        },
        r@ == suffix_of(platform, selinux),
{
    match platform {
        Platform::Linux => if selinux {
            ":z"
        } else {
            ""
        },
        _ => "",
    }
}

/// A bind as the engine takes it.
pub open spec fn bind_text(v: Volume, suffix: Seq<char>) -> Seq<char> {
    path_shown(v.src) + ":"@ + path_shown(v.dest) + suffix
}

/// The binds of volumes.
pub open spec fn bind_texts(v: Seq<Volume>, suffix: Seq<char>) -> Seq<Seq<char>> {
    v.map_values(|x: Volume| bind_text(x, suffix))
}

/// A bind, from the two paths as they are shown.
pub fn bind(src: &str, dest: &str, suffix: &str) -> (r: String)
    ensures
        r@ == src@ + ":"@ + dest@ + suffix@,
{
    let mut s: String = src.to_string();
    s.append(":");
    s.append(dest);
    s.append(suffix);
    s
}

/// A container to create.
#[derive(Debug)]
pub struct ContainerRequest {
    pub image: String,
    pub cmd: Vec<String>,
    pub binds: Option<Vec<String>>,
    pub userns_mode: String,
}

/// The binds of a container, where it has volumes.
pub open spec fn request_binds(volumes: Seq<Volume>, suffix: Seq<char>) -> Option<Seq<Seq<char>>> {
    if volumes.len() == 0 {
        None
    } else {
        Some(bind_texts(volumes, suffix))
    }
}

/// The request for a container. Without volumes there are no binds; the user
/// keeps its number inside the container.
pub fn container_request(
    image_tag: &ImageTag,
    cmd: Vec<String>,
    volumes: &Vec<Volume>,
    suffix: &str,
) -> (r: ContainerRequest)
    ensures
        r.image@ == image_tag@,
        r.cmd == cmd,
        match r.binds {
            Some(b) => volumes@.len() > 0 && texts(b@) == bind_texts(volumes@, suffix@),
            None => volumes@.len() == 0,
        },
        match request_binds(volumes@, suffix@) {
            Some(b) => r.binds matches Some(v) && texts(v@) == b,
            None => r.binds is None,
        },
        r.userns_mode@ == "keep-id"@,
{
    let binds: Option<Vec<String>> = if volumes.len() == 0 {
        None
    } else {
        let ghost want = bind_texts(volumes@, suffix@);
        let mut binds: Vec<String> = Vec::new();
        let mut i: usize = 0;
        while i < volumes.len()
            invariant
                i <= volumes.len(),
                want == bind_texts(volumes@, suffix@),
                texts(binds@) == want.take(i as int),
            decreases volumes.len() - i,
        {
            let ghost b0 = texts(binds@);
            let src: String = show_path(&volumes[i].src);
            let dest: String = show_path(&volumes[i].dest);
            binds.push(bind(src.as_str(), dest.as_str(), suffix));
            i += 1;
            assert(want[i - 1] == bind_text(volumes@[i - 1], suffix@));
            assert(texts(binds@) =~= b0.push(want[i - 1]));
            assert(texts(binds@) =~= want.take(i as int));
        }
        assert(texts(binds@) =~= want);
        Some(binds)
    };
    ContainerRequest {
        image: image_tag.to_string(),
        cmd,
        binds,
        userns_mode: "keep-id".to_string(),
    }
}

/// An image that the engine holds.
#[derive(Debug)]
pub struct ImageSummary {
    pub repo_tags: Vec<String>,
    pub size: i64,
}

/// What an [`ImageSummary`] holds.
pub struct SummaryView {
    pub repo_tags: Seq<Seq<char>>,
    pub size: i64,
}

impl View for ImageSummary {
    type V = SummaryView;

    open spec fn view(&self) -> SummaryView {
        SummaryView { repo_tags: texts(self.repo_tags@), size: self.size }
    }
}

/// What a sequence of images holds.
pub open spec fn summaries(v: Seq<ImageSummary>) -> Seq<SummaryView> {
    v.map_values(|s: ImageSummary| s@)
}

/// Tags and sizes.
pub open spec fn sized_tags(v: Seq<(String, i64)>) -> Seq<(Seq<char>, i64)> {
    v.map_values(|p: (String, i64)| (p.0@, p.1))
}

/// The tags of one image that contain `part`, with its size.
pub open spec fn tags_with(tags: Seq<Seq<char>>, size: i64, part: Seq<char>) -> Seq<
    (Seq<char>, i64),
> {
    tags.filter(|t: Seq<char>| has_part(t, part)).map_values(|t: Seq<char>| (t, size))
}

/// The tags of all images that contain `part`, with their sizes.
pub open spec fn listed_tags(images: Seq<SummaryView>, part: Seq<char>) -> Seq<(Seq<char>, i64)>
    decreases images.len(),
{
    if images.len() == 0 {
        seq![]
    } else {
        listed_tags(images.drop_last(), part) + tags_with(
            images.last().repo_tags,
            images.last().size,
            part,
        )
    }
}

/// The tags of all images that contain `prefix`, with their sizes.
pub fn list_images(images: &Vec<ImageSummary>, prefix: &str) -> (r: Vec<(String, i64)>)
    ensures
        sized_tags(r@) == listed_tags(summaries(images@), prefix@),
{
    let ghost all = summaries(images@);
    let ghost keep = |t: Seq<char>| has_part(t, prefix@);
    let mut tags: Vec<(String, i64)> = Vec::new();
    let mut i: usize = 0;
    assert(sized_tags(tags@) =~= listed_tags(all.take(0), prefix@));
    while i < images.len()
        invariant
            i <= images.len(),
            all == summaries(images@),
            keep == (|t: Seq<char>| has_part(t, prefix@)),
            sized_tags(tags@) == listed_tags(all.take(i as int), prefix@),
        decreases images.len() - i,
    {
        let img: &ImageSummary = &images[i];
        let ghost base = sized_tags(tags@);
        let ghost names = texts(img.repo_tags@);
        assert(all[i as int] == img@);
        let mut k: usize = 0;
        assert(tags_with(names.take(0), img.size, prefix@) =~= Seq::empty()) by {
            reveal(Seq::filter);
        }
        while k < img.repo_tags.len()
            invariant
                k <= img.repo_tags.len(),
                names == texts(img.repo_tags@),
                keep == (|t: Seq<char>| has_part(t, prefix@)),
                sized_tags(tags@) == base + tags_with(names.take(k as int), img.size, prefix@),
            decreases img.repo_tags.len() - k,
        {
            let ghost s = names.take(k as int);
            let ghost x = names[k as int];
            let ghost t0 = sized_tags(tags@);
            assert(x == img.repo_tags@[k as int]@);
            if contains(img.repo_tags[k].as_str(), prefix) {
                tags.push((img.repo_tags[k].clone(), img.size));
                assert(sized_tags(tags@) =~= t0.push((x, img.size)));
            }
            k += 1;
            assert(names.take(k as int) == s.push(x));
            assert(s.push(x).drop_last() == s);
            assert(s.push(x).filter(keep) == if keep(x) {
                s.filter(keep).push(x)
            } else {
                s.filter(keep)
            }) by {
                reveal(Seq::filter);
            }
            assert(sized_tags(tags@) =~= base + tags_with(
                names.take(k as int),
                img.size,
                prefix@,
            ));
        }
        assert(names.take(names.len() as int) == names);
        i += 1;
        assert(all.take(i as int).drop_last() == all.take(i - 1));
        assert(all.take(i as int).last() == img@);
    }
    assert(all.take(all.len() as int) == all);
    tags
}

/// What to do while an image is waited for.
#[derive(Clone, Copy, Debug, Eq, PartialEq, Structural)]
pub enum WaitAction {
    /// Look whether the image is there.
    Check,
    /// Wait, then look again.
    SleepThenCheck,
    /// The image is there.
    Ready,
    /// The image did not turn up.
    GiveUp,
}

/// The milliseconds between two looks.
pub const WAIT_MILLIS: u64 = 500;

/// How often a downloaded image is looked for.
pub const READY_RETRIES: usize = 10;

/// What to do first.
pub open spec fn first_action(retries: int) -> WaitAction {
    if retries == 0 {
        WaitAction::GiveUp
    } else {
        WaitAction::Check
    }
}

/// What to do first.
pub fn wait_start(retries: usize) -> (r: WaitAction)
    ensures
        r == if retries == 0 {
            WaitAction::GiveUp
        } else {
            WaitAction::Check
        },
        r == first_action(retries as int),
{
    if retries == 0 {
        WaitAction::GiveUp
    } else {
        WaitAction::Check
    }
}

/// What to do after a look.
pub open spec fn after_look(retries: int, looks: int, exists_now: bool) -> WaitAction {
    if exists_now {
        WaitAction::Ready
    } else if looks < retries {
        WaitAction::SleepThenCheck
    } else {
        WaitAction::GiveUp
    }
}

/// What to do after the look with number `looks`, counted from one.
pub fn wait_next(retries: usize, looks: usize, exists_now: bool) -> (r: WaitAction)
    ensures
        r == after_look(retries as int, looks as int, exists_now),
{
    if exists_now {
        WaitAction::Ready
    } else if looks < retries {
        WaitAction::SleepThenCheck
    } else {
        WaitAction::GiveUp
    }
}

/// The outcome of waiting, with the answers that the looks give.
pub open spec fn wait_outcome(retries: int, looks: int, answers: spec_fn(int) -> bool) -> bool
    decreases retries - looks,
{
    if looks >= retries {
        false
    } else {
        match after_look(retries, looks + 1, answers(looks)) {
            WaitAction::Ready => true,
            WaitAction::SleepThenCheck => wait_outcome(retries, looks + 1, answers),
            _ => false,
        }
    }
}

/// Waiting succeeds exactly where one of the looks finds the image.
pub proof fn law_wait(retries: int, looks: int, answers: spec_fn(int) -> bool)
    requires
        0 <= looks,
    ensures
        wait_outcome(retries, looks, answers) <==> exists|i: int|
            looks <= i < retries && #[trigger] answers(i),
    decreases retries - looks,
{
    if looks < retries {
        law_wait(retries, looks + 1, answers);
        if answers(looks) {
            assert(looks <= looks < retries && answers(looks));
        }
    }
}

/// A piece of a container's output.
#[derive(Debug)]
pub enum LogChunk {
    StdOut(Vec<u8>),
    StdErr(Vec<u8>),
    /// Anything else that the engine reports; it holds no output.
    Other,
}

/// The text of bytes, with a replacement character for what is not UTF-8.
pub uninterp spec fn lossy_text(bytes: Seq<u8>) -> Seq<char>;

/// `String::from_utf8_lossy`. The text depends on the bytes alone; bytes that
/// are UTF-8 are the encoding of their text.
#[verifier::external_body]
fn decode_lossy(bytes: &Vec<u8>) -> (r: String)
    ensures
        r@ == lossy_text(bytes@),
        valid_utf8(bytes@) ==> encode_utf8(r@) == bytes@,
{
    String::from_utf8_lossy(bytes).into_owned()
}

/// The text of a piece of output.
pub open spec fn chunk_text(c: LogChunk) -> Seq<char> {
    match c {
        LogChunk::StdOut(b) => lossy_text(b@),
        LogChunk::StdErr(b) => lossy_text(b@),
        LogChunk::Other => seq![],
    }
}

/// The bytes of a piece of output.
pub open spec fn chunk_bytes(c: LogChunk) -> Seq<u8> {
    match c {
        LogChunk::StdOut(b) => b@,
        LogChunk::StdErr(b) => b@,
        LogChunk::Other => seq![],
    }
}

/// The text of a piece of output, if it holds any. UTF-8 is read as it is.
pub fn read_chunk(c: &LogChunk) -> (r: Option<String>)
    ensures
        match r {
            Some(s) => !(c is Other) && s@ == chunk_text(*c) && (valid_utf8(chunk_bytes(*c))
                ==> encode_utf8(s@) == chunk_bytes(*c)),
            None => c is Other,
        },
{
    match c {
        LogChunk::StdOut(b) => Some(decode_lossy(b)),
        LogChunk::StdErr(b) => Some(decode_lossy(b)),
        LogChunk::Other => None,
    }
}

/// Adds the text of a piece of output.
pub fn append_chunk(output: &mut String, c: &LogChunk)
    ensures
        final(output)@ == old(output)@ + chunk_text(*c),
{
    let ghost o0 = output@;
    match read_chunk(c) {
        Some(s) => output.append(s.as_str()),
        None => {
            assert(output@ =~= o0 + chunk_text(*c));
        },
    }
}

/// What comes of a container's output.
pub enum LogItem {
    Piece(LogChunk),
    /// The output broke off for this reason.
    Failure(String),
}

/// What to do after a piece of output.
pub enum ReadAction {
    /// Read on.
    More,
    /// Read no further; the whole output is refused for this reason.
    Refuse(String),
}

/// Adds what came of a container's output. The first failure ends the reading.
pub fn output_received(output: &mut String, item: &LogItem) -> (r: ReadAction)
    ensures
        match *item {
            LogItem::Piece(c) => final(output)@ == old(output)@ + chunk_text(c) && r is More,
            LogItem::Failure(e) => final(output)@ == old(output)@ && (
            r matches ReadAction::Refuse(reason) && reason@ == e@),
        },
{
    match item {
        LogItem::Piece(c) => {
            append_chunk(output, c);
            ReadAction::More
        },
        LogItem::Failure(e) => ReadAction::Refuse(e.clone()),
    }
}

/// The text of all output, or the first failure.
pub open spec fn whole_output(all: Seq<LogItem>) -> Result<Seq<char>, Seq<char>>
    decreases all.len(),
{
    if all.len() == 0 {
        Ok(seq![])
    } else {
        match whole_output(all.drop_last()) {
            Ok(text) => match all.last() {
                LogItem::Piece(c) => Ok(text + chunk_text(c)),
                LogItem::Failure(e) => Err(e@),
            },
            Err(e) => Err(e),
        }
    }
}

/// Output is read as a whole exactly where none of it is a failure.
pub proof fn law_whole_output(all: Seq<LogItem>)
    ensures
        whole_output(all) is Ok <==> forall|i: int|
            0 <= i < all.len() ==> #[trigger] all[i] is Piece,
    decreases all.len(),
{
    if all.len() > 0 {
        let init = all.drop_last();
        law_whole_output(init);
        assert forall|i: int| 0 <= i < init.len() implies init[i] == all[i] by {}
        if whole_output(all) is Ok {
            assert forall|i: int| 0 <= i < all.len() implies #[trigger] all[i] is Piece by {
                if i < init.len() {
                    assert(init[i] is Piece);
                }
            }
        } else if forall|i: int| 0 <= i < all.len() ==> #[trigger] all[i] is Piece {
            assert forall|i: int| 0 <= i < init.len() implies #[trigger] init[i] is Piece by {
                assert(all[i] is Piece);
            }
            assert(all[all.len() - 1] is Piece);
        }
    }
}

/// The address in the environment counts, that of Docker before the other; the
/// socket of Podman is in the runtime folder where one is set.
pub proof fn law_engine(docker: Option<Seq<char>>, other: Option<Seq<char>>, dir: Seq<char>)
    ensures
        docker is Some ==> engine_host(docker, other) == docker,
        docker is None ==> engine_host(docker, other) == other,
        podman_path(Platform::Linux, Some(dir)) == Some(dir + "/podman/podman.sock"@),
        podman_path(Platform::MacOs, Some(dir)) == Some(dir + "/podman/podman.sock"@),
        podman_path(Platform::OtherUnix, Some(dir)) == Some(dir + "/podman/podman.sock"@),
        podman_path(Platform::Linux, None) == Some("/run/podman/podman.sock"@),
        podman_path(Platform::MacOs, None) == Some("/run/podman/podman.sock"@),
        podman_path(Platform::OtherUnix, None) == Some("/run/podman/podman.sock"@),
        podman_path(Platform::Windows, Some(dir)) == podman_path(Platform::Windows, None),
        podman_path(Platform::Windows, None) == Some("\\\\.\\pipe\\podman-machine-default"@),
        podman_path(Platform::Other, Some(dir)) is None,
        podman_path(Platform::Other, None) is None,
{
}

/// Each volume is bound at its place: the folder, a colon, the name that the
/// container sees, and the suffix.
pub proof fn law_binds(v: Seq<Volume>, suffix: Seq<char>, i: int)
    requires
        0 <= i < v.len(),
    ensures
        bind_texts(v, suffix).len() == v.len(),
        bind_texts(v, suffix)[i] == path_shown(v[i].src) + ":"@ + path_shown(v[i].dest) + suffix,
{
}

/// The tags of an image are listed one by one, each that contains the part and
/// no other, with the size of the image.
pub proof fn law_tags_with(tags: Seq<Seq<char>>, t: Seq<char>, size: i64, part: Seq<char>)
    ensures
        tags_with(Seq::empty(), size, part) == Seq::<(Seq<char>, i64)>::empty(),
        has_part(t, part) ==> tags_with(tags.push(t), size, part) == tags_with(
            tags,
            size,
            part,
        ).push((t, size)),
        !has_part(t, part) ==> tags_with(tags.push(t), size, part) == tags_with(tags, size, part),
{
    reveal(Seq::filter);
    assert(tags.push(t).drop_last() =~= tags);
    assert(tags_with(Seq::empty(), size, part) =~= Seq::<(Seq<char>, i64)>::empty());
    if has_part(t, part) {
        assert(tags_with(tags.push(t), size, part) =~= tags_with(tags, size, part).push((t, size)));
    }
}

/// Images are listed one after the other, each with its own tags and size.
pub proof fn law_images_listed(images: Seq<SummaryView>, image: SummaryView, part: Seq<char>)
    ensures
        listed_tags(Seq::empty(), part) == Seq::<(Seq<char>, i64)>::empty(),
        listed_tags(images.push(image), part) == listed_tags(images, part) + tags_with(
            image.repo_tags,
            image.size,
            part,
        ),
{
    assert(images.push(image).drop_last() =~= images);
}

/// An image that is found is ready at once; otherwise there is another look
/// while there are looks left, and none after the last.
pub proof fn law_after_look(retries: int, looks: int)
    ensures
        after_look(retries, looks, true) is Ready,
        looks < retries ==> after_look(retries, looks, false) is SleepThenCheck,
        looks >= retries ==> after_look(retries, looks, false) is GiveUp,
{
}

/// Output is read from both streams alike, and from nothing else; the whole is
/// its pieces one after the other.
pub proof fn law_chunks(all: Seq<LogItem>, b: Vec<u8>, text: Seq<char>, e: String)
    ensures
        chunk_text(LogChunk::StdOut(b)) == lossy_text(b@),
        chunk_text(LogChunk::StdErr(b)) == lossy_text(b@),
        chunk_text(LogChunk::Other).len() == 0,
        whole_output(Seq::empty()) == Ok::<Seq<char>, Seq<char>>(Seq::empty()),
        whole_output(all) == Ok::<Seq<char>, Seq<char>>(text) ==> whole_output(
            all.push(LogItem::Piece(LogChunk::StdOut(b))),
        ) == Ok::<Seq<char>, Seq<char>>(text + lossy_text(b@)),
        whole_output(all) is Ok ==> whole_output(all.push(LogItem::Failure(e))) == Err::<
            Seq<char>,
            Seq<char>,
        >(e@),
        whole_output(all) is Err ==> whole_output(all.push(LogItem::Piece(LogChunk::StdOut(b))))
            == whole_output(all),
{
    assert(all.push(LogItem::Piece(LogChunk::StdOut(b))).drop_last() =~= all);
    assert(all.push(LogItem::Failure(e)).drop_last() =~= all);
}

/// An address in the environment is used before all else; then the socket or
/// pipe of Podman where it is there; then whatever is usual.
pub proof fn law_endpoint(
    platform: Platform,
    docker: Option<Seq<char>>,
    other: Option<Seq<char>>,
    dir: Option<Seq<char>>,
    there: bool,
)
    ensures
        docker matches Some(h) ==> endpoint_of(platform, docker, other, dir, there)
            == EndpointView::Host(h),
        docker is None && other is Some ==> endpoint_of(platform, docker, other, dir, there)
            == EndpointView::Host(other->0),
        !there ==> endpoint_of(platform, None, None, dir, there) is LocalDefaults,
        there && platform is Windows ==> endpoint_of(platform, None, None, dir, there)
            == EndpointView::Pipe(podman_path(platform, dir)->0),
        there && (platform is Linux || platform is MacOs || platform is OtherUnix)
            ==> endpoint_of(platform, None, None, dir, there) == EndpointView::Socket(
            podman_path(platform, dir)->0,
        ),
        platform is Other ==> endpoint_of(platform, None, None, dir, there) is LocalDefaults,
{
}

/// Folders are relabelled on Linux with SELinux and nowhere else; a container
/// has binds exactly where it has volumes, one for each.
pub proof fn law_request(platform: Platform, volumes: Seq<Volume>, suffix: Seq<char>)
    ensures
        suffix_of(Platform::Linux, true) == ":z"@,
        suffix_of(Platform::Linux, false).len() == 0,
        !(platform is Linux) ==> suffix_of(platform, true).len() == 0 && suffix_of(
            platform,
            false,
        ).len() == 0,
        request_binds(volumes, suffix) is Some <==> volumes.len() > 0,
        request_binds(volumes, suffix) matches Some(b) ==> b.len() == volumes.len(),
{
    reveal_strlit("");
}

/// With no look allowed waiting is given up at once; otherwise it begins with a
/// look, without a pause.
pub proof fn law_first_action(retries: int)
    ensures
        retries > 0 ==> first_action(retries) is Check,
        first_action(0) is GiveUp,
{
}

/// What a piece holds are its bytes, on either stream, and every piece of text
/// goes into the whole.
pub proof fn law_pieces_read(all: Seq<LogItem>, b: Vec<u8>, text: Seq<char>)
    ensures
        chunk_bytes(LogChunk::StdOut(b)) == b@,
        chunk_bytes(LogChunk::StdErr(b)) == b@,
        chunk_bytes(LogChunk::Other).len() == 0,
        whole_output(all) == Ok::<Seq<char>, Seq<char>>(text) ==> whole_output(
            all.push(LogItem::Piece(LogChunk::StdErr(b))),
        ) == Ok::<Seq<char>, Seq<char>>(text + lossy_text(b@)),
        whole_output(all) == Ok::<Seq<char>, Seq<char>>(text) ==> whole_output(
            all.push(LogItem::Piece(LogChunk::Other)),
        ) == Ok::<Seq<char>, Seq<char>>(text),
{
    assert(all.push(LogItem::Piece(LogChunk::StdErr(b))).drop_last() =~= all);
    assert(all.push(LogItem::Piece(LogChunk::Other)).drop_last() =~= all);
    assert(text + chunk_text(LogChunk::Other) =~= text);
}

/// A downloaded image is looked for ten times, half a second apart; a request to
/// a socket or a pipe is given up after two minutes.
pub proof fn law_waits()
    ensures
        READY_RETRIES == 10 && WAIT_MILLIS == 500 && ENDPOINT_TIMEOUT == 120,
{
}

} // verus!
