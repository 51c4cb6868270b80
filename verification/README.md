# qwen_image_studio

The logic of Qwen Image Studio — a desktop app that installs Qwen-Image-2.1 weights, runs
stable-diffusion.cpp's `sd-server` on the local GPU, and serves it as an MCP server
(`qwen_generate`, `qwen_edit`), optionally through a Cloudflare quick tunnel — written in Verus
and proved against its contracts.

## Layout

```
src/            the verified library
  config.rs     tier and asset tables, the persisted configuration, install paths
  download.rs   the install plan and the resumable, checksum-verified download machine
  engine.rs     the engine's life cycle, its launch arguments, job bodies and replies
  mcp.rs        how tool arguments become engine jobs, and what a tool hands back
  state.rs      download rows, gallery, tier cells, VRAM gauge, the window snapshot
  tunnel.rs     the tunnel's state, URL recognition, Host matching
  codec.rs      hex, SHA-256, base64 and randomness, behind trusted wrappers
  text.rs       character-level string helpers the contracts are stated over
tests/          tests of the library, run against the real outside crates
app/            the Tauri app around it: window commands, HTTP, processes, disk
```

Everything that decides something lives in `src/`; `app/` performs the I/O the library asks
for and hands back what happened. Laws that span several calls are public proof functions
named `law_*`.
