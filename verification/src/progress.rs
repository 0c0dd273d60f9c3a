//! The stages of the "play" pipeline, for the window to show something meaningful.
use crate::text::concat3;
use vstd::prelude::*;

verus! {

#[derive(Debug, Clone, Copy, PartialEq, Eq, Structural)]
pub enum Stage {
    CheckingJava,
    DownloadingClient,
    DownloadingLibraries,
    DownloadingAssets,
    InstallingForge,
    SyncingMods,
    Launching,
}

/// The message shown when a stage starts.
pub open spec fn spec_stage_message(stage: Stage) -> Seq<char> {
    match stage {
        Stage::CheckingJava => "Buscando Java..."@,
        Stage::DownloadingClient => "Descargando Minecraft..."@,
        Stage::DownloadingLibraries => "Descargando librerías..."@,
        Stage::DownloadingAssets => "Descargando assets (texturas, sonidos)..."@,
        Stage::InstallingForge => "Instalando Forge..."@,
        Stage::SyncingMods => "Sincronizando mods..."@,
        Stage::Launching => "Iniciando Minecraft..."@,
    }
}

pub fn stage_message(stage: Stage) -> (m: &'static str)
    ensures
        m@ == spec_stage_message(stage),
{
    match stage {
        Stage::CheckingJava => "Buscando Java...",
        Stage::DownloadingClient => "Descargando Minecraft...",
        Stage::DownloadingLibraries => "Descargando librerías...",
        Stage::DownloadingAssets => "Descargando assets (texturas, sonidos)...",
        Stage::InstallingForge => "Instalando Forge...",
        Stage::SyncingMods => "Sincronizando mods...",
        Stage::Launching => "Iniciando Minecraft...",
    }
}

/// "Instalando Forge <version>...".
pub fn forge_install_message(forge_version: &str) -> (m: String)
    ensures
        m@ == "Instalando Forge "@ + forge_version@ + "..."@,
{
    concat3("Instalando Forge ", forge_version, "...")
}

} // verus!
