# oben_gateway

The core of a multi-platform messaging gateway (Telegram, Discord, Slack,
WhatsApp, QQ) and of its autonomous-goal loop, written in Verus: every
function of the library carries a `requires`/`ensures` contract that Verus
proves.

## Layout

- `src/` — the verified library.
  - Text handling shared by the adapters: `text`, `strmap` (an
    insertion-ordered string map with a `Map` view), `platform`.
  - Platform rules: `telegram`, `telegram_poll`, `discord`, `slack`,
    `whatsapp`, `whatsapp_webhook`, `qq_protocol`, `qq_bot`, `qq_onboard`.
  - Gateway services: `gateway`, `router`, `messaging`, `delivery`,
    `fallback`, `circuit_breaker`, `rate_limiter`, `health_check`,
    `alerting`, `logging`, `metrics`, `diagnostics`, `webhooks`,
    `slash_commands`, `pairing`, `state_persistence`, `sticker_cache`,
    `memory_monitor`.
  - Session search: `search` (the snippet of a text around a query, cut at
    UTF-8 byte offsets).
  - Goals: `plan`, `plan_state`, `plan_parser`, `goal_state`, `verdict`,
    `judge`, `goal_loop`, `goal_store`, `goal_manager`, `skill_curation`.
  - Trusted edges: `clock` (system time), `entropy` (random numbers), and
    the wrappers of `sha2`, `hex`, `base64`, `aes-gcm` and `serde_json` next to
    the code that calls them. Each states in its doc comment what its
    contract claims of the outside function.
  - Laws that relate several operations are public proof functions named
    `law_*`.
- `tests/` — the test suite, run against the compiled library.
- `app/` — the program around the library: files, HTTP, the QQ and Slack
  WebSocket sessions, the Telegram long polling, the QR onboarding session,
  the memory monitor thread, the floating-point token bucket, and the serde
  forms of the library's types.

The session store that goes with the search (sessions, their messages and
summaries, switching and deleting them) is not part of this crate: its
`Session` and `Message` types belong to a models crate that is not
available here, and a store built on types of its own would be a different
store. The search's ranking is a floating-point score, which Verus does
not verify.
