# btama

An overlay for Bloody Trapland, a 32-bit .NET game: it draws frames around
players and traps, edits the parameters of the local character and the flags of
traps, and shows a menu over the game.

`src/` is a library verified with Verus. It never touches the process it runs in.

* Memory of the game is seen through `mem::Memory`, a picture of the address
  space. A call that runs into something the picture does not hold returns it as
  a `mem::Need`; the caller supplies it and calls again. Within a call nothing is
  asked for twice, and what comes out is what the process holds. When the call is
  over only the map of regions is left. Changes come out as stores for the caller
  to carry out; until it takes them, bytes that it supplies are shown with the
  stores laid over them.
* The signature search (`scan`) and the life cycle of the hook (`hook`) are state
  machines: they say what to do next and take in what came of it.
* `overlay` decides what a frame shows and writes its texts.
* Numbers in single precision are carried by their bit patterns and never
  computed with.

Each contract equates the result of a function with a spec function over
mathematical models. The modules named `laws`, and the proof functions whose
names begin with `law_`, state what holds across functions.

`app/` is ordinary Rust around the library: the entry point of the DLL, queries
and raw access to memory, the detour and the hooking library, floating point
maps, the user interface, and the log file. It is built for
`i686-pc-windows-msvc`.

`tests/` runs the library on pictures of small heaps.
