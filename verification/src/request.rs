//! What a run of the pipeline is asked to do.

use vstd::prelude::*;
use crate::platform::{format_name, PluginFormat};
use crate::text::{chars_of, same_text, slice_of, texts};

verus! {

/// A request to build one crate and package it as plugin bundles.
#[derive(Debug, Clone, PartialEq, Eq)]
pub struct BuildRequest {
    crate_name: String,
    release: bool,
    bundle_id: String,
    formats: Vec<PluginFormat>,
    clean: bool,
    install: bool,
}

/// A `BuildRequest` as plain values.
pub struct RequestView {
    pub crate_name: Seq<char>,
    pub release: bool,
    pub bundle_id: Seq<char>,
    pub formats: Seq<PluginFormat>,
    pub clean: bool,
    pub install: bool,
}

impl View for BuildRequest {
    type V = RequestView;

    closed spec fn view(&self) -> RequestView {
        RequestView {
            crate_name: self.crate_name@,
            release: self.release,
            bundle_id: self.bundle_id@,
            formats: self.formats@,
            clean: self.clean,
            install: self.install,
        }
    }
}

/// The formats of `formats`, each once, in the order of their first
/// occurrence.
pub open spec fn distinct_formats(formats: Seq<PluginFormat>) -> Seq<PluginFormat>
    decreases formats.len(),
{
    if formats.len() == 0 {
        Seq::empty()
    } else {
        let before = distinct_formats(formats.drop_last());
        if before.contains(formats.last()) {
            before
        } else {
            before.push(formats.last())
        }
    }
}

/// The bundle identifier of a request that names none.
pub open spec fn default_bundle_id() -> Seq<char> {
    "org.free-audio.rust-gain-example"@
}

/// The formats of a request that names none.
pub open spec fn default_formats() -> Seq<PluginFormat> {
    seq![PluginFormat::Clap, PluginFormat::Vst3, PluginFormat::Auv2]
}

/// `distinct_formats` gives each format at most once, and exactly the
/// formats it was given.
pub proof fn lemma_distinct_formats(formats: Seq<PluginFormat>)
    ensures
        distinct_formats(formats).no_duplicates(),
        forall|f: PluginFormat| distinct_formats(formats).contains(f) <==> formats.contains(f),
    decreases formats.len(),
{
    if formats.len() > 0 {
        let before = distinct_formats(formats.drop_last());
        lemma_distinct_formats(formats.drop_last());
        assert forall|f: PluginFormat| distinct_formats(formats).contains(f) <==> formats.contains(
            f,
        ) by {
            if formats.contains(f) {
                let i = choose|i: int| 0 <= i < formats.len() && formats[i] == f;
                if i < formats.len() - 1 {
                    assert(formats.drop_last()[i] == f);
                    assert(formats.drop_last().contains(f));
                    assert(before.contains(f));
                }
                if !before.contains(formats.last()) {
                    assert(before.push(formats.last())[before.len() as int] == formats.last());
                    if before.contains(f) {
                        let k = choose|k: int| 0 <= k < before.len() && before[k] == f;
                        assert(before.push(formats.last())[k] == f);
                    }
                }
            }
            if distinct_formats(formats).contains(f) {
                let k = choose|k: int|
                    0 <= k < distinct_formats(formats).len() && distinct_formats(formats)[k] == f;
                if k < before.len() {
                    assert(before[k] == f);
                    assert(before.contains(f));
                    assert(formats.drop_last().contains(f));
                    let i = choose|i: int|
                        0 <= i < formats.drop_last().len() && formats.drop_last()[i] == f;
                    assert(formats[i] == f);
                } else {
                    assert(f == formats.last());
                    assert(formats[formats.len() - 1] == f);
                }
            }
        }
    }
}

impl BuildRequest {
    /// A request is well formed when it names no format twice.
    pub open spec fn well_formed(&self) -> bool {
        self@.formats.no_duplicates()
    }

    /// Makes a request. A format that is named more than once counts once.
    pub fn new(
        crate_name: String,
        release: bool,
        bundle_id: String,
        formats: Vec<PluginFormat>,
        clean: bool,
        install: bool,
    ) -> (request: Self)
        ensures
            request.well_formed(),
            request@ == (RequestView {
                crate_name: crate_name@,
                release,
                bundle_id: bundle_id@,
                formats: distinct_formats(formats@),
                clean,
                install,
            }),
    {
        let mut kept: Vec<PluginFormat> = Vec::new();
        let mut i: usize = 0;
        assert(kept@ =~= distinct_formats(formats@.take(0)));
        while i < formats.len()
            invariant
                i <= formats.len(),
                kept@ == distinct_formats(formats@.take(i as int)),
            decreases formats.len() - i,
        {
            let format = formats[i];
            proof {
                assert(formats@.take(i + 1).drop_last() =~= formats@.take(i as int));
            }
            if !has_format(&kept, format) {
                kept.push(format);
            }
            i = i + 1;
        }
        proof {
            assert(formats@.take(formats.len() as int) =~= formats@);
            lemma_distinct_formats(formats@);
        }
        BuildRequest { crate_name, release, bundle_id, formats: kept, clean, install }
    }

    /// The bundle identifier of a request that names none.
    pub fn default_bundle_id() -> (id: String)
        ensures
            id@ == default_bundle_id(),
    {
        "org.free-audio.rust-gain-example".to_owned()
    }

    /// The formats of a request that names none: all of them.
    pub fn default_formats() -> (formats: Vec<PluginFormat>)
        ensures
            formats@ == default_formats(),
    {
        let formats = vec![PluginFormat::Clap, PluginFormat::Vst3, PluginFormat::Auv2];
        assert(formats@ =~= default_formats());
        formats
    }

    /// The name of the crate to build.
    pub fn crate_name(&self) -> (name: &str)
        ensures
            name@ == self@.crate_name,
    {
        self.crate_name.as_str()
    }

    /// Whether the crate is built with the release profile.
    pub fn release(&self) -> (release: bool)
        ensures
            release == self@.release,
    {
        self.release
    }

    /// The identifier that the bundles carry.
    pub fn bundle_id(&self) -> (id: &str)
        ensures
            id@ == self@.bundle_id,
    {
        self.bundle_id.as_str()
    }

    /// The formats to package, each once.
    pub fn formats(&self) -> (formats: &Vec<PluginFormat>)
        ensures
            formats@ == self@.formats,
    {
        &self.formats
    }

    /// Whether what earlier runs left is removed first.
    pub fn clean(&self) -> (clean: bool)
        ensures
            clean == self@.clean,
    {
        self.clean
    }

    /// Whether the bundles are installed once they are built.
    pub fn install(&self) -> (install: bool)
        ensures
            install == self@.install,
    {
        self.install
    }
}

/// Tests whether `format` is one of `formats`.
pub fn has_format(formats: &Vec<PluginFormat>, format: PluginFormat) -> (found: bool)
    ensures
        found == formats@.contains(format),
{
    let mut i: usize = 0;
    while i < formats.len()
        invariant
            i <= formats.len(),
            forall|k: int| 0 <= k < i ==> formats@[k] != format,
        decreases formats.len() - i,
    {
        if formats[i] == format {
            return true;
        }
        i = i + 1;
    }
    false
}

/// The number of characters from position `i` up to the next comma or the
/// end of the text.
pub open spec fn field_length(text: Seq<char>, i: int) -> nat
    decreases text.len() - i,
{
    if 0 <= i < text.len() && text[i] != ',' {
        1 + field_length(text, i + 1)
    } else {
        0
    }
}

/// The fields of a list from position `i` on: what stands between its
/// commas. A list with n commas has n + 1 fields.
pub open spec fn fields_from(text: Seq<char>, i: int) -> Seq<Seq<char>>
    decreases text.len() - i,
{
    if i < 0 || i > text.len() {
        Seq::empty()
    } else {
        let end = i + field_length(text, i);
        if end >= text.len() {
            seq![text.subrange(i, text.len() as int)]
        } else {
            seq![text.subrange(i, end)] + fields_from(text, end + 1)
        }
    }
}

/// The format that a name stands for.
pub open spec fn named_format(name: Seq<char>) -> Option<PluginFormat> {
    if name == format_name(PluginFormat::Clap) {
        Some(PluginFormat::Clap)
    } else if name == format_name(PluginFormat::Vst3) {
        Some(PluginFormat::Vst3)
    } else if name == format_name(PluginFormat::Auv2) {
        Some(PluginFormat::Auv2)
    } else {
        None
    }
}

/// The formats that names stand for, if each of them is the name of one.
pub open spec fn named_formats(names: Seq<Seq<char>>) -> Option<Seq<PluginFormat>>
    decreases names.len(),
{
    if names.len() == 0 {
        Some(Seq::empty())
    } else {
        match (named_formats(names.drop_last()), named_format(names.last())) {
            (Some(formats), Some(format)) => Some(formats.push(format)),
            _ => None,
        }
    }
}

/// The formats that a list of names separated by commas stands for.
pub open spec fn listed_formats(list: Seq<char>) -> Option<Seq<PluginFormat>> {
    named_formats(fields_from(list, 0))
}

/// Reads the name of a format.
pub fn parse_format(name: &Vec<char>) -> (format: Option<PluginFormat>)
    ensures
        format == named_format(name@),
{
    if same_text(name, &chars_of(PluginFormat::Clap.name())) {
        Some(PluginFormat::Clap)
    } else if same_text(name, &chars_of(PluginFormat::Vst3.name())) {
        Some(PluginFormat::Vst3)
    } else if same_text(name, &chars_of(PluginFormat::Auv2.name())) {
        Some(PluginFormat::Auv2)
    } else {
        None
    }
}

/// Splits a list at its commas.
pub fn split_fields(text: &Vec<char>) -> (fields: Vec<Vec<char>>)
    ensures
        texts(fields@) == fields_from(text@, 0),
{
    let mut fields: Vec<Vec<char>> = Vec::new();
    let mut start: usize = 0;
    let mut done = false;
    assert(texts(fields@) + fields_from(text@, 0) =~= fields_from(text@, 0));
    while !done
        invariant
            start <= text.len(),
            !done ==> fields_from(text@, 0) == texts(fields@) + fields_from(text@, start as int),
            done ==> fields_from(text@, 0) == texts(fields@),
        decreases text.len() - start + (if done { 0int } else { 1int }),
    {
        let mut end: usize = start;
        while end < text.len() && text[end] != ','
            invariant
                start <= end <= text.len(),
                field_length(text@, start as int) == (end - start) + field_length(
                    text@,
                    end as int,
                ),
            decreases text.len() - end,
        {
            end = end + 1;
        }
        let field = slice_of(text, start, end);
        let ghost before = texts(fields@);
        fields.push(field);
        assert(texts(fields@) =~= before + seq![field@]);
        if end >= text.len() {
            done = true;
        } else {
            assert(before + (seq![field@] + fields_from(text@, end + 1)) =~= texts(fields@)
                + fields_from(text@, end + 1));
            start = end + 1;
        }
    }
    fields
}

/// Reads a list of format names separated by commas, such as
/// `CLAP,VST3,AUV2`. Gives nothing if a field is not the name of a format.
pub fn parse_formats(list: &str) -> (formats: Option<Vec<PluginFormat>>)
    ensures
        match listed_formats(list@) {
            Some(listed) => formats matches Some(f) && f@ == listed,
            None => formats is None,
        },
{
    let fields = split_fields(&chars_of(list));
    let ghost names = texts(fields@);
    let mut formats: Vec<PluginFormat> = Vec::new();
    let mut valid = true;
    let mut i: usize = 0;
    assert(formats@ =~= Seq::<PluginFormat>::empty());
    while i < fields.len()
        invariant
            i <= fields.len(),
            names == texts(fields@),
            valid ==> named_formats(names.take(i as int)) == Some(formats@),
            !valid ==> named_formats(names.take(i as int)) is None,
        decreases fields.len() - i,
    {
        proof {
            assert(names.take(i + 1).drop_last() =~= names.take(i as int));
            assert(names.take(i + 1).last() == fields@[i as int]@);
        }
        match parse_format(&fields[i]) {
            Some(format) => {
                if valid {
                    formats.push(format);
                }
            },
            None => {
                valid = false;
            },
        }
        i = i + 1;
    }
    assert(names.take(fields.len() as int) =~= names);
    if valid {
        Some(formats)
    } else {
        None
    }
}

} // verus!
