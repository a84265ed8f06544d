# witch_common

Tooling for games built on the Luminous Engine (Final Fantasy XV, Forspoken):
reading the engine's reflected types, asset factories and game framework
modules out of a running game or a memory dump, and the patch plan of the
module that is injected into the game.

The library in `src/` is written in Verus and verified:

- `hash`, `asset_id`: the engine's FNV-1a and CRC-32 name hashes and asset
  identifiers;
- `engine::native`: the engine's structures as they lie in memory (pointers,
  strings, arrays, maps, reflected type records) and how they are decoded;
- `engine`: the values read from them (reflected types, asset factories,
  game framework modules, with the x86-64 decoding that finds a module's
  name), the names of their flag bits, and their spelling as C#-like
  pseudocode;
- `memory`: memory readers, process memory maps, and the NP93 and minidump
  dump formats;
- `scarlet`: the injected module's configuration, its patch plan and the
  steps that apply one patch, what the game detected of its system, and the
  classification of live game objects.

`app/` holds what needs the operating system: the introspection command-line
tool, the Linux and Windows process readers, the output files, the
configuration file, and (on Windows) the launcher, the injected module and
its overlay.
