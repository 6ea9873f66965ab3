# discowl

Discowl is a small web browser: a Slint window with a toolbar and an area in
which the Servo engine renders pages.

The library in `src/` holds the decisions of the browser shell, each proved
with Verus:

- `frame`: read-back frames (turning GL rows upright, wrapping them as RGBA
  images, counting the frames read);
- `pacing`: a rate limiter on a monotonic nanosecond clock;
- `adapter`: the slots tying engine, web view and rendering adapter to the
  window, and which frame version was last shown;
- `delegate`: which frames reported by the engine are shown (at most five a
  second);
- `webview`: when the engine's event loop spins, the web view's size, and
  creating the web view once;
- `input`: pointer, keyboard and modifier events turned into engine input;
- `navigation`: what the address bar's text loads;
- `parsed_url`: a URL parsed by the `url` crate, kept with its own text.

`app/` is the program around it: the Slint window, the Servo engine, GPU and
software rendering contexts, and the async task that drives the engine.
