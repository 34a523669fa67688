# cast_away

A desktop caster: a webview page lists the cast devices found on the local
network and asks the application to connect to one and cast a local media
file, which is transcoded to a DASH stream and served by a local web server.

`src/` is the verified library (Verus):

- `text` — decimal numbers (`usize::from_str` and `to_string` for `usize`),
  suffix tests, equality and pattern replacement over characters;
- `config` — host and port of the local server and the page's address;
- `device` — discovered devices and the lookup by name;
- `cast` — the receiver application to launch and the stream address;
- `ipc` — requests from the page and the scripts that answer it;
- `routes` — which file a streaming request names and how it is served;
- `launch` — command-line options, the transcoding command, the window icon;
- `state` — the decisions of the event loop: from state and event to the next
  state and the action to carry out.

`app/` is the program around it: the window, the webview, the web server,
mDNS discovery, the cast connection and the transcoder.
