# nvm_windows

The logic of a Node.js version manager for Windows, verified with Verus.

- `src/` is the verified library:
  - `model`: releases of Node.js and the queries on them (newest version,
    newest LTS, lists of current and LTS versions, versions of a major line,
    lookup of a version), the configuration (loading order, checks, where it is
    saved, the proxy setting) and the version argument of the command line;
  - `releases`: the release index as the download tool reads it;
  - `config`: the configuration in the earlier layout of the settings file;
  - `command_args`: the version argument checked as a semantic version;
  - `system_proxy`: what the proxy values of the registry mean and the order
    in which they are looked up;
  - `stream`: the buffering of a download that is read piece by piece;
  - `text`: string operations with their meaning stated over characters.
- `app/` is the program around it: the command line, the settings file, the
  registry, the HTTP requests and the progress bar.
- `tests/` runs the library on concrete values.
