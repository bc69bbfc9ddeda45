# loungy

The verified core of Loungy, a keyboard-driven application launcher.

`src/` is a Verus library. It holds the launcher's logic with contracts
that Verus proves: the fuzzy ranking of list items, the text input and its
key handling, the view stack, actions and their shortcuts, lists and their
selection, forms and their checks, and the rules of each command (task
manager, Tailscale peers, Bitwarden vault, clipboard history, chat, themes,
menu items, calculator results, command-line requests, favicons). Public
proof functions named `law_*` state properties that hold across calls.

Calls into outside crates (`nucleo`, `url`, `regex`, `scraper`, `jiff`,
`catppuccin`, `whoami`, `numbat`) and a few std functions stand behind small trusted
wrappers, each documented with what it claims.

`tests/` runs the library on concrete values. `app/` is the program around
it: the request socket, the listings read from `ps` and `tailscale`, and
the favicon fetches.
