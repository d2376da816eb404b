use vstd::prelude::*;

use crate::progress::{parse_progress_line, parse_spec};
use crate::store::{attach_spec, complete_spec, create_spec, update_spec, JobStore};

verus! {

/// A request to download `url`.
#[derive(Clone, Debug)]
pub struct DownloadRequest {
    pub url: String,
    pub format: String,
    pub quality: String,
    pub sponsorblock: bool,
    pub embed_metadata: bool,
    pub embed_subs: bool,
}

/// The views of a list of strings.
pub open spec fn views(v: Seq<String>) -> Seq<Seq<char>> {
    v.map_values(|s: String| s@)
}

/// The arguments every run of the downloader gets: progress on its own lines,
/// in the form that the progress parser reads.
pub open spec fn base_args() -> Seq<Seq<char>> {
    seq![
        "--progress"@,
        "--newline"@,
        "--progress-template"@,
        "DOWNLOAD:%(progress._percent_str)s|%(progress._speed_str)s|%(progress._eta_str)s"@,
    ]
}

pub open spec fn audio_args() -> Seq<Seq<char>> {
    seq!["-x"@, "--audio-format"@, "mp3"@]
}

pub open spec fn sponsorblock_args() -> Seq<Seq<char>> {
    seq!["--sponsorblock-remove"@, "all"@]
}

pub open spec fn metadata_args() -> Seq<Seq<char>> {
    seq!["--embed-metadata"@, "--embed-thumbnail"@]
}

pub open spec fn subtitle_args() -> Seq<Seq<char>> {
    seq!["--write-auto-subs"@, "--embed-subs"@]
}

pub open spec fn when(b: bool, s: Seq<Seq<char>>) -> Seq<Seq<char>> {
    if b {
        s
    } else {
        Seq::empty()
    }
}

/// The downloader's command line for a request: the base arguments, the
/// arguments of each option asked for (subtitles only for video), and the URL
/// last.
pub open spec fn args_spec(
    url: Seq<char>,
    format: Seq<char>,
    sponsorblock: bool,
    embed_metadata: bool,
    embed_subs: bool,
) -> Seq<Seq<char>> {
    let audio = format == "audio"@;
    base_args() + when(audio, audio_args()) + when(sponsorblock, sponsorblock_args()) + when(
        embed_metadata,
        metadata_args(),
    ) + when(embed_subs && !audio, subtitle_args()) + seq![url]
}

fn push_arg(v: &mut Vec<String>, s: &str)
    ensures
        views(final(v)@) == views(old(v)@).push(s@),
{
    v.push(String::from_str(s));
    assert(views(v@) =~= views(old(v)@).push(s@));
}

/// Builds the downloader's arguments for `req`.
pub fn build_args(req: &DownloadRequest) -> (r: Vec<String>)
    ensures
        views(r@) == args_spec(
            req.url@,
            req.format@,
            req.sponsorblock,
            req.embed_metadata,
            req.embed_subs,
        ),
{
    let mut v: Vec<String> = Vec::new();
    push_arg(&mut v, "--progress");
    push_arg(&mut v, "--newline");
    push_arg(&mut v, "--progress-template");
    push_arg(
        &mut v,
        "DOWNLOAD:%(progress._percent_str)s|%(progress._speed_str)s|%(progress._eta_str)s",
    );
    assert(views(v@) =~= base_args());
    let audio = req.format == String::from_str("audio");
    let ghost acc = views(v@);
    if audio {
        push_arg(&mut v, "-x");
        push_arg(&mut v, "--audio-format");
        push_arg(&mut v, "mp3");
    }
    assert(views(v@) =~= acc + when(audio, audio_args()));
    let ghost acc = views(v@);
    if req.sponsorblock {
        push_arg(&mut v, "--sponsorblock-remove");
        push_arg(&mut v, "all");
    }
    assert(views(v@) =~= acc + when(req.sponsorblock, sponsorblock_args()));
    let ghost acc = views(v@);
    if req.embed_metadata {
        push_arg(&mut v, "--embed-metadata");
        push_arg(&mut v, "--embed-thumbnail");
    }
    assert(views(v@) =~= acc + when(req.embed_metadata, metadata_args()));
    let ghost acc = views(v@);
    if req.embed_subs && !audio {
        push_arg(&mut v, "--write-auto-subs");
        push_arg(&mut v, "--embed-subs");
    }
    assert(views(v@) =~= acc + when(req.embed_subs && !audio, subtitle_args()));
    let ghost acc = views(v@);
    push_arg(&mut v, req.url.as_str());
    assert(views(v@) =~= acc + seq![req.url@]);
    v
}

/// Accepts a request: a fresh job under its URL, unless one is running there.
pub fn start_download(store: &mut JobStore, req: &DownloadRequest) -> (r: bool)
    requires
        old(store).wf(),
    ensures
        final(store).wf(),
        (r, final(store)@) == create_spec(old(store)@, req.url@),
{
    store.try_create(&req.url)
}

/// The downloader was spawned as process `pid`.
pub fn on_spawned(store: &mut JobStore, key: &String, pid: u32)
    requires
        old(store).wf(),
    ensures
        final(store).wf(),
        final(store)@ == attach_spec(old(store)@, key@, pid),
{
    store.attach_handle(key, pid);
}

/// The downloader could not be spawned: the job goes.
pub fn on_spawn_failed(store: &mut JobStore, key: &String)
    requires
        old(store).wf(),
    ensures
        final(store).wf(),
        final(store)@ == old(store)@.remove(key@),
{
    store.remove(key);
}

/// One line of the downloader's standard output: a progress line updates the
/// job, any other is ignored. Tells whether the line was progress.
pub fn on_output_line(store: &mut JobStore, key: &String, line: &str) -> (r: bool)
    requires
        old(store).wf(),
    ensures
        final(store).wf(),
        r == parse_spec(line@).is_some(),
        final(store)@ == (match parse_spec(line@) {
            Some(p) => update_spec(old(store)@, key@, p),
            None => old(store)@,
        }),
{
    match parse_progress_line(line) {
        Some(p) => {
            store.update_progress(key, p);
            true
        },
        None => false,
    }
}

/// The downloader ended: a success completes the job, anything else
/// (a nonzero exit, a failed wait) removes it.
pub fn on_exit(store: &mut JobStore, key: &String, success: bool)
    requires
        old(store).wf(),
    ensures
        final(store).wf(),
        final(store)@ == if success {
            complete_spec(old(store)@, key@)
        } else {
            old(store)@.remove(key@)
        },
{
    if success {
        store.mark_completed(key);
    } else {
        store.remove(key);
    }
}

} // verus!
