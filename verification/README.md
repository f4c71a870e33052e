# ttsvii

Batch voice-cloning for subtitled recordings. A recording is cut up along its
subtitles, a speech service speaks every subtitle in the voice of its part, and
the results are joined: once one after the other, and once so that each fills
the time of its subtitle.

`src/` is a Verus library that decides everything that can be decided without
touching a file, a process or the network. Where outside work is needed, a state
machine says what is to be done next and is told what came of it. `app/` performs
that work: it runs `ffmpeg` and `ffprobe`, sends requests, serves the web page.

| module | what it does |
| --- | --- |
| `text` | trimming, searching, numerals, quoting, paths |
| `srt`, `srt_laws`, `order_laws` | reading subtitles and their normal form |
| `tempo`, `silence`, `timed_merge` | fitting clips into their times, and joining them |
| `audio`, `split`, `commands`, `list_laws` | cutting, checking and joining, and the command lines for it |
| `api` | requests to the speech service and its replies |
| `task`, `executor`, `metrics` | tasks, attempts, waits, statistics |
| `rounds`, `validation` | batches, rounds of retries, validation of results |
| `cli`, `pipeline`, `report`, `run_laws` | the course of a run from end to end |
| `display` | lines that are shown during a run |
| `web`, `log_capture` | tasks that are started from the web page |
| `outside` | JSON, base64, UTF-8, random identifiers |

Times of subtitles are whole milliseconds, lengths of recordings whole
microseconds, latencies whole nanoseconds. Proof functions named `law_..` state
what holds across functions.
