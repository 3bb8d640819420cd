# kata_device_plugin

A read-only Kubernetes device plugin for passthrough of VFIO-bound devices into Kata VMs. Its
logic is a Verus library: what it advertises, what it answers, and what it does to the host CDI
registry are stated in contracts and proved.

| Module | What it holds |
| --- | --- |
| `vfio` | the resource table; which devices of a scan belong to a resource, in which order |
| `cdi` | the CDI spec of a resource, its path, and the steps that put it in place |
| `registry` | what those steps do to the files: no torn spec, however many writes and removals run at once |
| `dp` | the messages of the device plugin API |
| `plugin` | the plugin of one resource: sockets, advertised devices, `Allocate` |
| `watch` | one `ListAndWatch` stream, from event to action |
| `lifecycle` | one plugin from start to shutdown, from event to action |
| `config`, `platform` | settings and platform detection |
| `text` | decimal numbers, search, trimming, paths |

`app/` is the program around it: it performs the actions (files, sockets, gRPC) and hands back
the events. `tests/` drives the library as the program does, over files held in memory.

Validation and YAML of CDI specs come from the crates `container-device-interface` and
`serde_yaml`; the three functions in `cdi` that call them are trusted, and their comments say what
is claimed of each.
