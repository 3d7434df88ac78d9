//! What the pipeline needs to know of the host it runs on, and the names it
//! gives to formats and profiles.

use vstd::prelude::*;

verus! {

/// The host platforms the pipeline tells apart.
#[derive(Debug, Clone, Copy, PartialEq, Eq, Structural)]
pub enum HostPlatform {
    Windows,
    MacOs,
    Other,
}

/// How the packaging system arranges what it writes.
#[derive(Debug, Clone, Copy, PartialEq, Eq, Structural)]
pub enum OutputLayout {
    /// Everything stands directly in the output directory.
    Flat,
    /// Each format stands in a directory of its own, and in it a directory
    /// for the profile.
    NestedByFormatAndProfile,
}

/// A plugin bundle format.
#[derive(Debug, Clone, Copy, PartialEq, Eq, Structural)]
pub enum PluginFormat {
    Clap,
    Vst3,
    Auv2,
}

/// The layout of the packaging system's output on a platform.
pub open spec fn layout_of(platform: HostPlatform) -> OutputLayout {
    match platform {
        HostPlatform::Windows => OutputLayout::NestedByFormatAndProfile,
        _ => OutputLayout::Flat,
    }
}

/// Whether a platform wants one static library for several architectures.
pub open spec fn wants_universal_binary(platform: HostPlatform) -> bool {
    platform == HostPlatform::MacOs
}

/// Whether a character separates the components of a path on a platform.
pub open spec fn is_separator(platform: HostPlatform, c: char) -> bool {
    c == '/' || (platform == HostPlatform::Windows && c == '\\')
}

/// The character a platform puts between the components of a path.
pub open spec fn separator_of(platform: HostPlatform) -> char {
    match platform {
        HostPlatform::Windows => '\\',
        _ => '/',
    }
}

/// The name of a format, as the packaging system writes it.
pub open spec fn format_name(format: PluginFormat) -> Seq<char> {
    match format {
        PluginFormat::Clap => "CLAP"@,
        PluginFormat::Vst3 => "VST3"@,
        PluginFormat::Auv2 => "AUV2"@,
    }
}

/// The name of a build profile, as the toolchain names its directory.
pub open spec fn profile_name(release: bool) -> Seq<char> {
    if release {
        "release"@
    } else {
        "debug"@
    }
}

/// The name of a build profile, as the packaging system selects it.
pub open spec fn configuration_name(release: bool) -> Seq<char> {
    if release {
        "Release"@
    } else {
        "Debug"@
    }
}

impl HostPlatform {
    /// The layout of the packaging system's output on this platform.
    pub fn layout(self) -> (layout: OutputLayout)
        ensures
            layout == layout_of(self),
    {
        match self {
            HostPlatform::Windows => OutputLayout::NestedByFormatAndProfile,
            _ => OutputLayout::Flat,
        }
    }

    /// Whether this platform wants one static library for several
    /// architectures.
    pub fn needs_universal_binary(self) -> (needed: bool)
        ensures
            needed == wants_universal_binary(self),
    {
        match self {
            HostPlatform::MacOs => true,
            _ => false,
        }
    }

    /// Whether `c` separates the components of a path on this platform.
    pub fn separates(self, c: char) -> (separates: bool)
        ensures
            separates == is_separator(self, c),
    {
        match self {
            HostPlatform::Windows => c == '/' || c == '\\',
            _ => c == '/',
        }
    }

    /// The character this platform puts between the components of a path.
    pub fn separator(self) -> (c: char)
        ensures
            c == separator_of(self),
            is_separator(self, c),
    {
        match self {
            HostPlatform::Windows => '\\',
            _ => '/',
        }
    }
}

impl PluginFormat {
    /// The name of the format, as the packaging system writes it.
    pub fn name(self) -> (name: &'static str)
        ensures
            name@ == format_name(self),
    {
        match self {
            PluginFormat::Clap => "CLAP",
            PluginFormat::Vst3 => "VST3",
            PluginFormat::Auv2 => "AUV2",
        }
    }
}

/// The name of a build profile, as the toolchain names its directory.
pub fn profile_dir(release: bool) -> (name: &'static str)
    ensures
        name@ == profile_name(release),
{
    if release {
        "release"
    } else {
        "debug"
    }
}

/// The name of a build profile, as the packaging system selects it.
pub fn configuration(release: bool) -> (name: &'static str)
    ensures
        name@ == configuration_name(release),
{
    if release {
        "Release"
    } else {
        "Debug"
    }
}

} // verus!
